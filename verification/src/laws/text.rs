//! Laws of numbers and texts.
use vstd::prelude::*;
use crate::text::{
    all_digits, dec, digit_char, digits_value, hex_lower, hex_upper, is_space, lower_char,
    lower_digit_char, number_of, pad_left, pad_right, same_ignoring_case, signed_dec, text_before,
    trim_end, trim_start, trimmed, unsigned, usize_of,
};

verus! {

/// Decimal text reads back: its digits have the value of the number, there is
/// at least one, and only zero starts with a zero.
pub proof fn lemma_decimal_reads_back(n: nat)
    ensures
        dec(n).fold_left(0int, |v: int, c: char| v * 10 + (c as int - 48)) == n,
        dec(n).len() >= 1,
        forall|i: int| 0 <= i < dec(n).len() ==> '0' <= #[trigger] dec(n)[i] <= '9',
        n > 0 ==> dec(n)[0] != '0',
    decreases n,
{
    let f = |v: int, c: char| v * 10 + (c as int - 48);
    let d = digit_char((n % 10) as int);
    assert(d as int - 48 == n % 10);
    if n < 10 {
        reveal_with_fuel(Seq::fold_left, 2);
        assert(dec(n).drop_last() =~= Seq::<char>::empty());
    } else {
        lemma_decimal_reads_back(n / 10);
        assert(dec(n).drop_last() =~= dec(n / 10));
        assert(dec(n).last() == d);
        assert forall|i: int| 0 <= i < dec(n).len() implies '0' <= #[trigger] dec(n)[i] <= '9' by {
            if i < dec(n).len() - 1 {
                assert(dec(n)[i] == dec(n / 10)[i]);
            }
        }
    }
}

/// Hexadecimal text reads back, in upper and in lower case.
pub proof fn lemma_hexadecimal_reads_back(n: nat)
    ensures
        hex_upper(n).fold_left(
            0int,
            |v: int, c: char|
                v * 16 + (if c <= '9' {
                    c as int - 48
                } else {
                    c as int - 55
                }),
        ) == n,
        hex_lower(n).fold_left(
            0int,
            |v: int, c: char|
                v * 16 + (if c <= '9' {
                    c as int - 48
                } else {
                    c as int - 87
                }),
        ) == n,
        hex_upper(n).len() >= 1,
        hex_lower(n).len() == hex_upper(n).len(),
        forall|i: int|
            0 <= i < hex_upper(n).len() ==> ('0' <= #[trigger] hex_upper(n)[i] <= '9' || 'A'
                <= hex_upper(n)[i] <= 'F'),
        forall|i: int|
            0 <= i < hex_lower(n).len() ==> ('0' <= #[trigger] hex_lower(n)[i] <= '9' || 'a'
                <= hex_lower(n)[i] <= 'f'),
        n > 0 ==> hex_upper(n)[0] != '0' && hex_lower(n)[0] != '0',
    decreases n,
{
    let u = digit_char((n % 16) as int);
    let l = lower_digit_char((n % 16) as int);
    assert(n % 16 == (if u <= '9' {
        u as int - 48
    } else {
        u as int - 55
    }));
    assert(n % 16 == (if l <= '9' {
        l as int - 48
    } else {
        l as int - 87
    }));
    if n < 16 {
        reveal_with_fuel(Seq::fold_left, 2);
        assert(hex_upper(n).drop_last() =~= Seq::<char>::empty());
        assert(hex_lower(n).drop_last() =~= Seq::<char>::empty());
    } else {
        lemma_hexadecimal_reads_back(n / 16);
        assert(hex_upper(n).drop_last() =~= hex_upper(n / 16));
        assert(hex_lower(n).drop_last() =~= hex_lower(n / 16));
        assert(hex_upper(n).last() == u);
        assert(hex_lower(n).last() == l);
        assert forall|i: int| 0 <= i < hex_upper(n).len() implies ('0' <= #[trigger] hex_upper(n)[i]
            <= '9' || 'A' <= hex_upper(n)[i] <= 'F') by {
            if i < hex_upper(n).len() - 1 {
                assert(hex_upper(n)[i] == hex_upper(n / 16)[i]);
            }
        }
        assert forall|i: int| 0 <= i < hex_lower(n).len() implies ('0' <= #[trigger] hex_lower(n)[i]
            <= '9' || 'a' <= hex_lower(n)[i] <= 'f') by {
            if i < hex_lower(n).len() - 1 {
                assert(hex_lower(n)[i] == hex_lower(n / 16)[i]);
            }
        }
    }
}

/// A negative number is written as its opposite behind a minus sign.
pub proof fn lemma_sign_is_written(n: nat)
    ensures
        signed_dec(n as int) == dec(n),
        n > 0 ==> signed_dec(-(n as int)) == seq!['-'] + dec(n),
{
    reveal_strlit("-");
    assert("-"@ =~= seq!['-']);
}

/// A padded text fills its field: the text stands at one edge and only the
/// filler before or behind it; a text that is too long is left as it is.
pub proof fn lemma_padding_keeps_the_text(s: Seq<char>, width: nat, c: char)
    ensures
        s.len() >= width ==> pad_left(s, width, c) == s && pad_right(s, width) == s,
        s.len() < width ==> {
            let gap = width - s.len();
            &&& pad_left(s, width, c).len() == width
            &&& pad_left(s, width, c).subrange(gap, width as int) == s
            &&& forall|i: int| 0 <= i < gap ==> #[trigger] pad_left(s, width, c)[i] == c
            &&& pad_right(s, width).len() == width
            &&& pad_right(s, width).subrange(0, s.len() as int) == s
            &&& forall|i: int| s.len() <= i < width ==> #[trigger] pad_right(s, width)[i] == ' '
        },
{
    if s.len() < width {
        let gap = width - s.len();
        assert(pad_left(s, width, c).subrange(gap, width as int) =~= s);
        assert(pad_right(s, width).subrange(0, s.len() as int) =~= s);
    }
}

pub proof fn lemma_digits_value_is_dec(n: nat)
    ensures
        digits_value(dec(n)) == n,
    decreases n,
{
    let d = digit_char((n % 10) as int);
    assert(d as int - 48 == n % 10);
    if n < 10 {
        reveal_with_fuel(digits_value, 2);
        assert(dec(n).drop_last() =~= Seq::<char>::empty());
    } else {
        lemma_digits_value_is_dec(n / 10);
        assert(dec(n).drop_last() =~= dec(n / 10));
        assert(dec(n).last() == d);
    }
}

/// A number that was written reads back, also behind a plus sign; one that is
/// too large does not.
pub proof fn lemma_number_reads_back(n: nat)
    ensures
        n <= usize::MAX ==> usize_of(dec(n)) == Some(n as usize) && usize_of(seq!['+'] + dec(n))
            == Some(n as usize),
        n > usize::MAX ==> usize_of(dec(n)) is None,
{
    lemma_decimal_reads_back(n);
    lemma_digits_value_is_dec(n);
    let s = dec(n);
    let t = seq!['+'] + s;
    assert(s[0] != '+');
    assert(unsigned(s) == s);
    assert(t.skip(1) =~= s);
    assert(t[0] == '+');
}

/// What is not one or more digits, at most one plus sign in front, is no
/// number.
pub proof fn lemma_other_text_is_no_number(s: Seq<char>, i: int)
    requires
        s.len() == 0 || (0 <= i < s.len() && !('0' <= s[i] <= '9') && (i > 0 || s[0] != '+'
            || s.len() == 1)),
    ensures
        usize_of(s) is None,
{
    if s.len() > 0 {
        let t = unsigned(s);
        if s.len() > 1 && s[0] == '+' {
            assert(t[i - 1] == s[i]);
        } else {
            assert(t[i] == s[i]);
        }
    }
}

proof fn lemma_trim_start(s: Seq<char>)
    ensures
        ({
            let t = trim_start(s);
            &&& t.len() <= s.len()
            &&& t == s.subrange(s.len() - t.len(), s.len() as int)
            &&& forall|i: int| 0 <= i < s.len() - t.len() ==> is_space(#[trigger] s[i])
            &&& t.len() > 0 ==> !is_space(t[0])
        }),
    decreases s.len(),
{
    if s.len() > 0 && is_space(s[0]) {
        let r = s.skip(1);
        lemma_trim_start(r);
        let t = trim_start(s);
        assert(t =~= s.subrange(s.len() - t.len(), s.len() as int));
        assert forall|i: int| 0 <= i < s.len() - t.len() implies is_space(#[trigger] s[i]) by {
            if i > 0 {
                assert(s[i] == r[i - 1]);
            }
        }
    } else {
        assert(s =~= s.subrange(0, s.len() as int));
    }
}

proof fn lemma_trim_end(s: Seq<char>)
    ensures
        ({
            let t = trim_end(s);
            &&& t.len() <= s.len()
            &&& t == s.subrange(0, t.len() as int)
            &&& forall|i: int| t.len() <= i < s.len() ==> is_space(#[trigger] s[i])
            &&& t.len() > 0 ==> !is_space(t.last())
        }),
    decreases s.len(),
{
    if s.len() > 0 && is_space(s.last()) {
        let r = s.drop_last();
        lemma_trim_end(r);
        let t = trim_end(s);
        assert(t =~= s.subrange(0, t.len() as int));
        assert forall|i: int| t.len() <= i < s.len() implies is_space(#[trigger] s[i]) by {
            if i < s.len() - 1 {
                assert(s[i] == r[i]);
            }
        }
    } else {
        assert(s =~= s.subrange(0, s.len() as int));
    }
}

/// Trimming takes white space off both ends and nothing else: what is left is a
/// piece of the text that neither begins nor ends with white space, and all
/// around it is white space.
pub proof fn lemma_trimmed_is_the_middle(s: Seq<char>)
    ensures
        exists|from: int|
            0 <= from && from + trimmed(s).len() <= s.len() && #[trigger] s.subrange(
                from,
                from + trimmed(s).len(),
            ) == trimmed(s) && (forall|i: int|
                0 <= i < from || from + trimmed(s).len() <= i < s.len() ==> is_space(
                    #[trigger] s[i],
                )),
        trimmed(s).len() > 0 ==> !is_space(trimmed(s)[0]) && !is_space(trimmed(s).last()),
        is_space(' ') && is_space('\t') && is_space('\n') && is_space('\r'),
        forall|c: char| '!' <= c <= '~' ==> !#[trigger] is_space(c),
{
    let a = trim_start(s);
    let t = trimmed(s);
    lemma_trim_start(s);
    lemma_trim_end(a);
    let from = s.len() - a.len();
    assert(s.subrange(from, from + t.len()) =~= t);
    assert forall|i: int| 0 <= i < from || from + t.len() <= i < s.len() implies is_space(
        #[trigger] s[i],
    ) by {
        if i >= from {
            assert(s[i] == a[i - from]);
        }
    }
    if t.len() > 0 {
        assert(t[0] == a[0]);
    }
}

/// The case of a letter can be ignored, and nothing else of it.
pub proof fn lemma_case_is_ignored(a: Seq<char>, b: Seq<char>, c: char)
    ensures
        'A' <= c <= 'Z' ==> lower_char(c) as int == c as int + 32,
        !('A' <= c <= 'Z') ==> lower_char(c) == c,
        same_ignoring_case(a, a),
        same_ignoring_case(a, b) == same_ignoring_case(b, a),
        same_ignoring_case(a, b) <==> a.map_values(|x: char| lower_char(x)) == b.map_values(
            |x: char| lower_char(x),
        ),
{
    let f = |x: char| lower_char(x);
    if same_ignoring_case(a, b) {
        assert(a.map_values(f) =~= b.map_values(f));
        assert forall|i: int| 0 <= i < b.len() implies lower_char(#[trigger] b[i]) == lower_char(
            a[i],
        ) by {
            assert(lower_char(a[i]) == lower_char(b[i]));
        }
    }
    if same_ignoring_case(b, a) {
        assert forall|i: int| 0 <= i < a.len() implies lower_char(#[trigger] a[i]) == lower_char(
            b[i],
        ) by {
            assert(lower_char(b[i]) == lower_char(a[i]));
        }
    }
    if a.map_values(f) == b.map_values(f) {
        assert(a.map_values(f).len() == b.map_values(f).len());
        assert forall|i: int| 0 <= i < a.len() implies lower_char(#[trigger] a[i]) == lower_char(
            b[i],
        ) by {
            assert(a.map_values(f)[i] == b.map_values(f)[i]);
        }
    }
}

/// Texts are ordered by the first character in which they differ, and a text
/// comes after every shorter one that it begins with.
pub proof fn lemma_first_difference_decides(a: Seq<char>, b: Seq<char>, k: int)
    requires
        0 <= k <= a.len(),
        k < b.len(),
        forall|i: int| 0 <= i < k ==> a[i] == b[i],
    ensures
        k < a.len() && a[k] < b[k] ==> text_before(a, b) && !text_before(b, a),
        k == a.len() ==> text_before(a, b) && !text_before(b, a),
    decreases k,
{
    if k > 0 {
        lemma_first_difference_decides(a.skip(1), b.skip(1), k - 1);
    }
}

} // verus!
