use vstd::prelude::*;

verus! {

/// A character with the Unicode White_Space property, which is what
/// `char::is_whitespace` and `str::trim` go by.
pub open spec fn is_white_space(c: char) -> bool {
    ||| '\u{9}' <= c <= '\u{d}'
    ||| c == ' '
    ||| c == '\u{85}'
    ||| c == '\u{a0}'
    ||| c == '\u{1680}'
    ||| '\u{2000}' <= c <= '\u{200a}'
    ||| c == '\u{2028}'
    ||| c == '\u{2029}'
    ||| c == '\u{202f}'
    ||| c == '\u{205f}'
    ||| c == '\u{3000}'
}

/// `s` without its leading white space.
pub open spec fn trim_start_chars(s: Seq<char>) -> Seq<char>
    decreases s.len(),
{
    if s.len() > 0 && is_white_space(s[0]) {
        trim_start_chars(s.drop_first())
    } else {
        s
    }
}

/// `s` without its trailing white space.
pub open spec fn trim_end_chars(s: Seq<char>) -> Seq<char>
    decreases s.len(),
{
    if s.len() > 0 && is_white_space(s.last()) {
        trim_end_chars(s.drop_last())
    } else {
        s
    }
}

/// `s` without leading and trailing white space.
pub open spec fn trimmed(s: Seq<char>) -> Seq<char> {
    trim_end_chars(trim_start_chars(s))
}

/// The lowercase form of an ASCII character; other characters unchanged.
pub open spec fn ascii_lower(c: char) -> char {
    if 'A' <= c <= 'Z' {
        ((c as int) + 32) as char
    } else {
        c
    }
}

/// Unicode's lowercase mapping of a whole string, as `str::to_lowercase`
/// computes it.
pub uninterp spec fn lowercased(s: Seq<char>) -> Seq<char>;

/// Whether `c` has the Unicode White_Space property.
pub fn is_white_space_char(c: char) -> (white: bool)
    ensures
        white == is_white_space(c),
{
    let code = c as u32;
    (0x9 <= code && code <= 0xd) || code == 0x20 || code == 0x85 || code == 0xa0 || code
        == 0x1680 || (0x2000 <= code && code <= 0x200a) || code == 0x2028 || code == 0x2029
        || code == 0x202f || code == 0x205f || code == 0x3000
}

/// The line without leading and trailing white space, as `str::trim` gives it.
pub fn trim_line(line: &str) -> (trimmed_line: &str)
    ensures
        trimmed_line@ == trimmed(line@),
{
    let n = line.unicode_len();
    let mut start: usize = 0;
    assert(line@.subrange(0, n as int) =~= line@);
    while start < n && is_white_space_char(line.get_char(start))
        invariant
            start <= n,
            n == line@.len(),
            trim_start_chars(line@) == trim_start_chars(line@.subrange(start as int, n as int)),
        decreases n - start,
    {
        assert(line@.subrange(start as int, n as int).drop_first() =~= line@.subrange(
            start + 1,
            n as int,
        ));
        start += 1;
    }
    assert(trim_start_chars(line@) == line@.subrange(start as int, n as int)) by {
        if start == n {
            assert(line@.subrange(start as int, n as int).len() == 0);
        }
    }
    let mut end: usize = n;
    while end > start && is_white_space_char(line.get_char(end - 1))
        invariant
            start <= end <= n,
            n == line@.len(),
            trim_start_chars(line@) == line@.subrange(start as int, n as int),
            trimmed(line@) == trim_end_chars(line@.subrange(start as int, end as int)),
        decreases end - start,
    {
        assert(line@.subrange(start as int, end as int).drop_last() =~= line@.subrange(
            start as int,
            end - 1,
        ));
        end -= 1;
    }
    assert(trimmed(line@) == line@.subrange(start as int, end as int)) by {
        if end == start {
            assert(line@.subrange(start as int, end as int).len() == 0);
        }
    }
    line.substring_char(start, end)
}

/// `str::to_lowercase`: Unicode's lowercase mapping of the whole string. The
/// contract names the result `lowercased` and states the one fact the standard
/// library's documentation plainly gives: an ASCII string is lowercased letter
/// by letter, 'A'..='Z' to 'a'..='z', every other character kept. What it does
/// to other characters is left unsaid.
#[verifier::external_body]
pub(crate) fn lowercase_line(line: &str) -> (lower: String)
    ensures
        lower@ == lowercased(line@),
        vstd::utf8::is_ascii_chars(line@) ==> lower@ == line@.map_values(|c: char| ascii_lower(c)),
{
    line.to_lowercase()
}

/// A typed line as the prompts read it: without leading and trailing white
/// space, and lowercased.
pub fn normalize_line(line: &str) -> (normal: String)
    ensures
        normal@ == lowercased(trimmed(line@)),
        vstd::utf8::is_ascii_chars(line@) ==> normal@ == ascii_normal(line@),
{
    let t = trim_line(line);
    proof {
        lemma_trim_keeps_ascii(line@);
    }
    lowercase_line(t)
}

/// An ASCII line as the prompts read it: trimmed, then every letter lowercased.
pub open spec fn ascii_normal(line: Seq<char>) -> Seq<char> {
    trimmed(line).map_values(|c: char| ascii_lower(c))
}

/// Every character of `s` has the White_Space property.
pub open spec fn all_white_space(s: Seq<char>) -> bool {
    forall|i: int| 0 <= i < s.len() ==> is_white_space(#[trigger] s[i])
}

/// `a` and `b` differ at most in the case of ASCII letters.
pub open spec fn same_but_case(a: Seq<char>, b: Seq<char>) -> bool {
    &&& a.len() == b.len()
    &&& forall|i: int| 0 <= i < a.len() ==> ascii_lower(#[trigger] a[i]) == ascii_lower(b[i])
}

proof fn lemma_trim_start_subrange(s: Seq<char>)
    ensures
        exists|i: int|
            0 <= i <= s.len() && trim_start_chars(s) == s.subrange(i, s.len() as int) && (forall|
                k: int,
            | 0 <= k < i ==> is_white_space(#[trigger] s[k])) && (i < s.len() ==> !is_white_space(
                s[i],
            )),
    decreases s.len(),
{
    if s.len() > 0 && is_white_space(s[0]) {
        lemma_trim_start_subrange(s.drop_first());
        let i = choose|i: int|
            0 <= i <= s.drop_first().len() && trim_start_chars(s.drop_first())
                == s.drop_first().subrange(i, s.drop_first().len() as int) && (forall|k: int|
                0 <= k < i ==> is_white_space(#[trigger] s.drop_first()[k])) && (i
                < s.drop_first().len() ==> !is_white_space(s.drop_first()[i]));
        assert(s.drop_first().subrange(i, s.drop_first().len() as int) =~= s.subrange(
            i + 1,
            s.len() as int,
        ));
        assert forall|k: int| 0 <= k < i + 1 implies is_white_space(#[trigger] s[k]) by {
            if k > 0 {
                assert(s[k] == s.drop_first()[k - 1]);
            }
        }
    } else {
        assert(s.subrange(0, s.len() as int) =~= s);
    }
}

proof fn lemma_trim_end_subrange(s: Seq<char>)
    ensures
        exists|j: int|
            0 <= j <= s.len() && trim_end_chars(s) == s.subrange(0, j) && (forall|k: int|
                j <= k < s.len() ==> is_white_space(#[trigger] s[k])) && (j > 0
                ==> !is_white_space(s[j - 1])),
    decreases s.len(),
{
    if s.len() > 0 && is_white_space(s.last()) {
        lemma_trim_end_subrange(s.drop_last());
        let j = choose|j: int|
            0 <= j <= s.drop_last().len() && trim_end_chars(s.drop_last())
                == s.drop_last().subrange(0, j) && (forall|k: int|
                j <= k < s.drop_last().len() ==> is_white_space(#[trigger] s.drop_last()[k]))
                && (j > 0 ==> !is_white_space(s.drop_last()[j - 1]));
        assert(s.drop_last().subrange(0, j) =~= s.subrange(0, j));
        assert forall|k: int| j <= k < s.len() implies is_white_space(#[trigger] s[k]) by {
            if k < s.len() - 1 {
                assert(s[k] == s.drop_last()[k]);
            }
        }
    } else {
        assert(s.subrange(0, s.len() as int) =~= s);
    }
}

/// The trimmed line is a run of the line's characters: from its first character
/// without the White_Space property to its last one.
proof fn lemma_trimmed_range(s: Seq<char>)
    ensures
        exists|i: int, j: int|
            0 <= i <= j <= s.len() && trimmed(s) == s.subrange(i, j) && (forall|k: int|
                0 <= k < i ==> is_white_space(#[trigger] s[k])) && (forall|k: int|
                j <= k < s.len() ==> is_white_space(#[trigger] s[k])) && (i < j ==> (
            !is_white_space(s[i]) && !is_white_space(s[j - 1]))) && (i == j ==> all_white_space(
                s,
            )),
{
    lemma_trim_start_subrange(s);
    let i = choose|i: int|
        0 <= i <= s.len() && trim_start_chars(s) == s.subrange(i, s.len() as int) && (forall|
            k: int,
        | 0 <= k < i ==> is_white_space(#[trigger] s[k])) && (i < s.len() ==> !is_white_space(
            s[i],
        ));
    let t = s.subrange(i, s.len() as int);
    lemma_trim_end_subrange(t);
    let j = choose|j: int|
        0 <= j <= t.len() && trim_end_chars(t) == t.subrange(0, j) && (forall|k: int|
            j <= k < t.len() ==> is_white_space(#[trigger] t[k])) && (j > 0 ==> !is_white_space(
            t[j - 1],
        ));
    assert(t.subrange(0, j) =~= s.subrange(i, i + j));
    assert forall|k: int| i + j <= k < s.len() implies is_white_space(#[trigger] s[k]) by {
        assert(s[k] == t[k - i]);
    }
    if j > 0 {
        assert(s[i + j - 1] == t[j - 1]);
        assert(s[i] == t[0]);
    }
    if j == 0 {
        assert forall|k: int| 0 <= k < s.len() implies is_white_space(#[trigger] s[k]) by {
            if k >= i {
                assert(s[k] == t[k - i]);
            }
        }
    }
    assert(0 <= i <= i + j <= s.len() && trimmed(s) == s.subrange(i, i + j));
}

proof fn lemma_trim_keeps_ascii(s: Seq<char>)
    ensures
        vstd::utf8::is_ascii_chars(s) ==> vstd::utf8::is_ascii_chars(trimmed(s)),
{
    lemma_trimmed_range(s);
}

/// Lowercasing an ASCII letter keeps whether it is white space.
proof fn lemma_lower_keeps_white_space(c: char)
    ensures
        is_white_space(ascii_lower(c)) == is_white_space(c),
{
}

/// A line is read the same whatever white space surrounds it and whatever case
/// its letters are in: two lines made of white space, a core, and white space,
/// whose cores differ at most in the case of ASCII letters, read alike.
pub proof fn lemma_case_and_padding_ignored(
    pad_left: Seq<char>,
    core: Seq<char>,
    pad_right: Seq<char>,
    other_left: Seq<char>,
    other_core: Seq<char>,
    other_right: Seq<char>,
)
    requires
        all_white_space(pad_left),
        all_white_space(pad_right),
        all_white_space(other_left),
        all_white_space(other_right),
        same_but_case(core, other_core),
    ensures
        ascii_normal(pad_left + core + pad_right) == ascii_normal(
            other_left + other_core + other_right,
        ),
{
    lemma_trimmed_range(core);
    let (i, j) = choose|i: int, j: int|
        0 <= i <= j <= core.len() && trimmed(core) == core.subrange(i, j) && (forall|k: int|
            0 <= k < i ==> is_white_space(#[trigger] core[k])) && (forall|k: int|
            j <= k < core.len() ==> is_white_space(#[trigger] core[k])) && (i < j ==> (
        !is_white_space(core[i]) && !is_white_space(core[j - 1]))) && (i == j ==> all_white_space(
            core,
        ));
    assert forall|k: int| 0 <= k < core.len() implies is_white_space(#[trigger] core[k])
        == is_white_space(other_core[k]) by {
        lemma_lower_keeps_white_space(core[k]);
        lemma_lower_keeps_white_space(other_core[k]);
    }
    let m = core.subrange(i, j);
    let other_m = other_core.subrange(i, j);
    let left = pad_left + core.subrange(0, i);
    let right = core.subrange(j, core.len() as int) + pad_right;
    let other_l = other_left + other_core.subrange(0, i);
    let other_r = other_core.subrange(j, core.len() as int) + other_right;
    assert(pad_left + core + pad_right =~= left + m + right);
    assert(other_left + other_core + other_right =~= other_l + other_m + other_r);
    assert(all_white_space(left)) by {
        assert forall|k: int| 0 <= k < left.len() implies is_white_space(#[trigger] left[k]) by {
            if k >= pad_left.len() {
                assert(left[k] == core[k - pad_left.len()]);
            }
        }
    }
    assert(all_white_space(right)) by {
        assert forall|k: int| 0 <= k < right.len() implies is_white_space(#[trigger] right[k]) by {
            if k < core.len() - j {
                assert(right[k] == core[k + j]);
            }
        }
    }
    assert(all_white_space(other_l)) by {
        assert forall|k: int| 0 <= k < other_l.len() implies is_white_space(
            #[trigger] other_l[k],
        ) by {
            if k >= other_left.len() {
                assert(other_l[k] == other_core[k - other_left.len()]);
                assert(is_white_space(core[k - other_left.len()]));
            }
        }
    }
    assert(all_white_space(other_r)) by {
        assert forall|k: int| 0 <= k < other_r.len() implies is_white_space(
            #[trigger] other_r[k],
        ) by {
            if k < core.len() - j {
                assert(other_r[k] == other_core[k + j]);
                assert(is_white_space(core[k + j]));
            }
        }
    }
    lemma_trimmed_of_padded(left, m, right);
    lemma_trimmed_of_padded(other_l, other_m, other_r);
    assert(ascii_normal(pad_left + core + pad_right) =~= ascii_normal(
        other_left + other_core + other_right,
    ));
}

proof fn lemma_trim_start_skips(pad: Seq<char>, rest: Seq<char>)
    requires
        all_white_space(pad),
    ensures
        trim_start_chars(pad + rest) == trim_start_chars(rest),
    decreases pad.len(),
{
    if pad.len() > 0 {
        assert((pad + rest).drop_first() =~= pad.drop_first() + rest);
        lemma_trim_start_skips(pad.drop_first(), rest);
    } else {
        assert(pad + rest =~= rest);
    }
}

proof fn lemma_trim_end_skips(rest: Seq<char>, pad: Seq<char>)
    requires
        all_white_space(pad),
    ensures
        trim_end_chars(rest + pad) == trim_end_chars(rest),
    decreases pad.len(),
{
    if pad.len() > 0 {
        assert((rest + pad).drop_last() =~= rest + pad.drop_last());
        lemma_trim_end_skips(rest, pad.drop_last());
    } else {
        assert(rest + pad =~= rest);
    }
}

/// A run without white space at either end, padded with white space, trims to
/// the run.
proof fn lemma_trimmed_of_padded(left: Seq<char>, middle: Seq<char>, right: Seq<char>)
    requires
        all_white_space(left),
        all_white_space(right),
        middle.len() > 0 ==> !is_white_space(middle[0]) && !is_white_space(middle.last()),
    ensures
        trimmed(left + middle + right) == middle,
{
    assert(left + middle + right =~= left + (middle + right));
    lemma_trim_start_skips(left, middle + right);
    if middle.len() > 0 {
        assert((middle + right)[0] == middle[0]);
        lemma_trim_end_skips(middle, right);
    } else {
        assert(middle + right =~= right);
        assert(right =~= Seq::<char>::empty() + right);
        lemma_trim_start_skips(right, Seq::<char>::empty());
    }
}

} // verus!
