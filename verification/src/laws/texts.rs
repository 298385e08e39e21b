//! Laws of texts.

use crate::text;
use vstd::prelude::*;

verus! {

/// The number that a text of decimal digits stands for.
pub open spec fn value(s: Seq<char>) -> int
    decreases s.len(),
{
    if s.len() == 0 {
        0
    } else {
        10 * value(s.drop_last()) + (s.last() as int - '0' as int)
    }
}

/// A number can be read back from its notation, which has digits only and no leading zero.
pub proof fn law_decimal_reads_back(n: nat)
    ensures
        value(text::decimal(n)) == n,
        text::decimal(n).len() > 0,
        forall|i: int| 0 <= i < text::decimal(n).len() ==> '0' <= #[trigger] text::decimal(n)[i] <= '9',
        text::decimal(n).len() > 1 ==> text::decimal(n)[0] != '0',
    decreases n,
{
    let s = text::decimal(n);
    if n < 10 {
        assert(s.drop_last() =~= Seq::empty());
        assert(value(s.drop_last()) == 0);
        assert(s.last() == text::digit(n));
    } else {
        let front = text::decimal(n / 10);
        law_decimal_reads_back(n / 10);
        assert(s.drop_last() =~= front);
        assert(s.last() == text::digit(n % 10));
        assert(s[0] == front[0]);
        if front.len() == 1 {
            assert(value(front) == 10 * value(front.drop_last()) + (front.last() as int
                - '0' as int));
            assert(front.drop_last() =~= Seq::empty());
            assert(value(front.drop_last()) == 0);
            assert(n / 10 > 0);
        }
        assert forall|i: int| 0 <= i < s.len() implies '0' <= #[trigger] s[i] <= '9' by {
            if i < front.len() {
                assert(s[i] == front[i]);
            }
        }
    }
}

/// A negative number is written as a minus sign and its magnitude, any other as it is.
pub proof fn law_signed_decimal_reads_back(n: int)
    ensures
        n < 0 ==> text::signed_decimal(n)[0] == '-' && value(text::signed_decimal(n).drop_first())
            == -n,
        n >= 0 ==> value(text::signed_decimal(n)) == n && text::signed_decimal(n)[0] != '-',
{
    if n < 0 {
        law_decimal_reads_back((-n) as nat);
        assert(text::signed_decimal(n).drop_first() =~= text::decimal((-n) as nat));
    } else {
        law_decimal_reads_back(n as nat);
        assert('0' <= text::decimal(n as nat)[0] <= '9');
    }
}

/// A single text stands for itself, and two lists are joined by the separator between them.
pub proof fn law_lists_are_joined_by_their_separator(
    a: Seq<Seq<char>>,
    b: Seq<Seq<char>>,
    one: Seq<char>,
    sep: Seq<char>,
)
    ensures
        text::joined(Seq::empty(), sep) == Seq::<char>::empty(),
        text::joined(seq![one], sep) == one,
        a.len() > 0 && b.len() > 0 ==> text::joined(a + b, sep) == text::joined(a, sep) + sep
            + text::joined(b, sep),
    decreases b.len(),
{
    if a.len() > 0 && b.len() > 0 {
        assert((a + b).last() == b.last());
        if b.len() == 1 {
            assert((a + b).drop_last() =~= a);
        } else {
            assert((a + b).drop_last() =~= a + b.drop_last());
            law_lists_are_joined_by_their_separator(a, b.drop_last(), one, sep);
            assert(text::joined(a + b, sep) =~= text::joined(a, sep) + sep + text::joined(b, sep));
        }
    }
}

/// A padded text starts with the text, is as wide as asked for or as the text where this is wider,
/// and has nothing but spaces behind the text.
pub proof fn law_padding_is_spaces_behind(s: Seq<char>, width: nat)
    ensures
        text::padded(s, width).len() == if s.len() < width {
            width
        } else {
            s.len()
        },
        text::padded(s, width).take(s.len() as int) == s,
        forall|i: int|
            s.len() <= i < text::padded(s, width).len() ==> #[trigger] text::padded(s, width)[i]
                == ' ',
{
    assert(text::padded(s, width).take(s.len() as int) =~= s);
}

/// A text occurs in another where this can be cut into something, the text and something.
pub proof fn law_occurring_is_being_cut_out(
    needle: Seq<char>,
    hay: Seq<char>,
    front: Seq<char>,
    back: Seq<char>,
)
    ensures
        text::occurs(needle, front + needle + back),
        text::occurs(needle, hay) ==> exists|a: Seq<char>, b: Seq<char>|
            hay == #[trigger] (a + needle + b),
{
    let whole = front + needle + back;
    let at = front.len() as int;
    assert(whole.subrange(at, at + needle.len()) =~= needle);
    if text::occurs(needle, hay) {
        let i = choose|i: int|
            0 <= i <= hay.len() - needle.len() && #[trigger] hay.subrange(i, i + needle.len())
                == needle;
        let a = hay.take(i);
        let b = hay.skip(i + needle.len());
        assert forall|k: int| 0 <= k < needle.len() implies needle[k] == hay[i + k] by {
            assert(hay.subrange(i, i + needle.len())[k] == hay[i + k]);
        }
        assert(hay =~= a + needle + b);
    }
}

/// What stands between two texts occurs in the whole.
pub proof fn lemma_within(whole: Seq<char>, front: Seq<char>, needle: Seq<char>, back: Seq<char>)
    requires
        whole =~= front + needle + back,
    ensures
        text::occurs(needle, whole),
{
    law_occurring_is_being_cut_out(needle, whole, front, back);
}

/// What stands between two texts in a part of a whole occurs in the whole.
pub proof fn lemma_within_part(
    whole: Seq<char>,
    front: Seq<char>,
    part: Seq<char>,
    back: Seq<char>,
    a: Seq<char>,
    needle: Seq<char>,
    b: Seq<char>,
)
    requires
        whole == front + part + back,
        part == a + needle + b,
    ensures
        text::occurs(needle, whole),
{
    lemma_within(whole, front + a, needle, b + back);
}

/// Whether all characters of a text are white space.
pub open spec fn blank(s: Seq<char>) -> bool {
    forall|i: int| 0 <= i < s.len() ==> text::white_space(#[trigger] s[i])
}

/// A text is something blank, the trimmed text and something blank, and the trimmed text has white
/// space at neither end.
pub proof fn law_trimming_cuts_white_space_off(s: Seq<char>)
    ensures
        exists|a: Seq<char>, b: Seq<char>|
            #![trigger a + text::trimmed(s) + b]
            s == a + text::trimmed(s) + b && blank(a) && blank(b),
        text::trimmed(s).len() > 0 ==> !text::white_space(text::trimmed(s)[0])
            && !text::white_space(text::trimmed(s).last()),
{
    let from = lemma_leading(s);
    let rest = text::without_leading(s);
    let to = lemma_trailing(rest);
    let kept = text::trimmed(s);
    let a = s.take(from);
    let b = rest.skip(to);
    assert(s =~= a + kept + b);
    assert(blank(a));
    assert(blank(b));
    if kept.len() > 0 {
        assert(kept[0] == rest[0]);
    }
}

proof fn lemma_leading(s: Seq<char>) -> (n: int)
    ensures
        0 <= n <= s.len(),
        text::without_leading(s) == s.skip(n),
        blank(s.take(n)),
        n < s.len() ==> !text::white_space(s[n]),
    decreases s.len(),
{
    if s.len() > 0 && text::white_space(s[0]) {
        let n = lemma_leading(s.drop_first()) + 1;
        assert(s.drop_first().skip(n - 1) =~= s.skip(n));
        assert forall|i: int| 0 <= i < n implies text::white_space(#[trigger] s.take(n)[i]) by {
            if i > 0 {
                assert(s.drop_first().take(n - 1)[i - 1] == s[i]);
            }
        }
        n
    } else {
        assert(s.skip(0) =~= s);
        0
    }
}

proof fn lemma_trailing(s: Seq<char>) -> (n: int)
    ensures
        0 <= n <= s.len(),
        text::without_trailing(s) == s.take(n),
        blank(s.skip(n)),
        n > 0 ==> !text::white_space(s[n - 1]),
    decreases s.len(),
{
    if s.len() > 0 && text::white_space(s.last()) {
        let n = lemma_trailing(s.drop_last());
        assert(s.drop_last().take(n) =~= s.take(n));
        assert forall|i: int| 0 <= i < s.len() - n implies text::white_space(
            #[trigger] s.skip(n)[i],
        ) by {
            if i < s.len() - n - 1 {
                assert(s.drop_last().skip(n)[i] == s[n + i]);
            }
        }
        n
    } else {
        assert(s.take(s.len() as int) =~= s);
        s.len() as int
    }
}

/// The first difference decides the order of texts, and a text stands before its continuations.
pub proof fn law_first_difference_decides(
    front: Seq<char>,
    c: char,
    x: Seq<char>,
    d: char,
    y: Seq<char>,
)
    ensures
        c != d ==> (text::precedes(front + seq![c] + x, front + seq![d] + y) <==> c < d),
        text::precedes(front, front + seq![c] + x),
        !text::precedes(front + seq![c] + x, front),
    decreases front.len(),
{
    let a = front + seq![c] + x;
    let b = front + seq![d] + y;
    if front.len() > 0 {
        let rest = front.drop_first();
        law_first_difference_decides(rest, c, x, d, y);
        assert(a.drop_first() =~= rest + seq![c] + x);
        assert(b.drop_first() =~= rest + seq![d] + y);
    }
}

/// Lists of strings and strings that may be missing have the texts of their strings.
pub proof fn law_texts_are_those_of_the_strings(v: Seq<String>, s: Option<String>, i: int)
    ensures
        text::texts(v).len() == v.len(),
        0 <= i < v.len() ==> text::texts(v)[i] == v[i]@,
        s matches Some(t) ==> text::optional_text(s) == Some(t@),
        s is None ==> text::optional_text(s) is None,
{
}

} // verus!
