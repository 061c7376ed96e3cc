//! What trimming, splitting, joining and numbers come to.
use vstd::prelude::*;

use crate::text;

verus! {

/// White space is what Unicode calls so: tab, line feed, vertical tab, form
/// feed, carriage return, space, next line, no-break space, the Ogham space,
/// the spaces from en quad to hair space, the line and paragraph separators,
/// the narrow no-break space, the mathematical and the ideographic space.
pub proof fn law_white_space(c: char)
    ensures
        text::is_white(c) <==> seq![
            '\u{9}',
            '\u{a}',
            '\u{b}',
            '\u{c}',
            '\u{d}',
            '\u{20}',
            '\u{85}',
            '\u{a0}',
            '\u{1680}',
            '\u{2000}',
            '\u{2001}',
            '\u{2002}',
            '\u{2003}',
            '\u{2004}',
            '\u{2005}',
            '\u{2006}',
            '\u{2007}',
            '\u{2008}',
            '\u{2009}',
            '\u{200a}',
            '\u{2028}',
            '\u{2029}',
            '\u{202f}',
            '\u{205f}',
            '\u{3000}',
        ].contains(c),
{
    let all = seq![
        '\u{9}',
        '\u{a}',
        '\u{b}',
        '\u{c}',
        '\u{d}',
        '\u{20}',
        '\u{85}',
        '\u{a0}',
        '\u{1680}',
        '\u{2000}',
        '\u{2001}',
        '\u{2002}',
        '\u{2003}',
        '\u{2004}',
        '\u{2005}',
        '\u{2006}',
        '\u{2007}',
        '\u{2008}',
        '\u{2009}',
        '\u{200a}',
        '\u{2028}',
        '\u{2029}',
        '\u{202f}',
        '\u{205f}',
        '\u{3000}',
    ];
    if text::is_white(c) {
        let n = c as u32;
        assert(all[0] == c || all[1] == c || all[2] == c || all[3] == c || all[4] == c || all[5]
            == c || all[6] == c || all[7] == c || all[8] == c || all[9] == c || all[10] == c
            || all[11] == c || all[12] == c || all[13] == c || all[14] == c || all[15] == c
            || all[16] == c || all[17] == c || all[18] == c || all[19] == c || all[20] == c
            || all[21] == c || all[22] == c || all[23] == c || all[24] == c);
    }
}

/// Views keep number and order.
pub proof fn law_views_in_order<T: View>(v: Seq<T>, o: Option<T>)
    ensures
        text::views(v).len() == v.len(),
        forall|i: int| 0 <= i < v.len() ==> #[trigger] text::views(v)[i] == v[i]@,
        text::opt_view(o) is Some <==> o is Some,
        o matches Some(x) ==> text::opt_view(o) == Some(x@),
{
}

/// Trimming takes away white space at both ends and nothing else: what is left
/// stands in the text as it is, all around it is white space, and it neither
/// begins nor ends with any.
pub proof fn law_trimmed_is_the_middle(s: Seq<char>)
    ensures
        exists|a: int, b: int|
            #![trigger s.subrange(a, b)]
            {
                &&& 0 <= a <= b <= s.len()
                &&& text::trimmed(s) == s.subrange(a, b)
                &&& forall|i: int| 0 <= i < a ==> text::is_white(#[trigger] s[i])
                &&& forall|i: int| b <= i < s.len() ==> text::is_white(#[trigger] s[i])
            },
        text::trimmed(s).len() > 0 ==> !text::is_white(text::trimmed(s)[0]) && !text::is_white(
            text::trimmed(s).last(),
        ),
        text::trimmed(s).len() == 0 <==> text::blank(s),
        text::blank(s) <==> forall|i: int| 0 <= i < s.len() ==> text::is_white(#[trigger] s[i]),
{
    let f = text::trim_front(s);
    let t = text::trimmed(s);
    text::lemma_trim_front(s);
    text::lemma_trim_back(f);
    text::lemma_trimmed_empty(s);
    let a = s.len() - f.len();
    let b = a + t.len();
    assert(t =~= s.subrange(a, b)) by {
        assert forall|i: int| 0 <= i < t.len() implies t[i] == s[a + i] by {
            assert(t[i] == f[i]);
            assert(f[i] == s.skip(a)[i]);
        }
    }
    assert forall|i: int| b <= i < s.len() implies text::is_white(#[trigger] s[i]) by {
        assert(f[i - a] == s.skip(a)[i - a]);
        assert(text::is_white(f[i - a]));
    }
    if t.len() > 0 {
        assert(t[0] == f[0]);
    }
}

/// What is capped keeps its start: all of it where it is short enough, and
/// otherwise as many characters as are allowed, and the mark.
pub proof fn law_capped_keeps_the_start(s: Seq<char>, n: nat, mark: Seq<char>)
    ensures
        s.len() <= n ==> text::capped(s, n, mark) == s,
        s.len() > n ==> {
            &&& text::capped(s, n, mark).len() == n + mark.len()
            &&& text::capped(s, n, mark).take(n as int) == s.take(n as int)
            &&& text::capped(s, n, mark).skip(n as int) == mark
        },
        s.len() <= n ==> text::first_chars(s, n) == s,
        s.len() > n ==> text::first_chars(s, n).len() == n,
        text::first_chars(s, n).is_prefix_of(s),
{
    if s.len() > n {
        assert(text::capped(s, n, mark).take(n as int) =~= s.take(n as int));
        assert(text::capped(s, n, mark).skip(n as int) =~= mark);
    }
    assert(text::first_chars(s, n) =~= s.subrange(0, text::first_chars(s, n).len() as int));
}

/// A text with separators falls into the pieces before and behind each of them;
/// one without any is one piece.
pub proof fn law_pieces_fall_at_separators(
    a: Seq<char>,
    c: char,
    b: Seq<char>,
    sep: spec_fn(char) -> bool,
)
    ensures
        sep(c) ==> text::pieces(a.push(c) + b, sep) == text::pieces(a, sep) + text::pieces(b, sep),
        (forall|i: int| 0 <= i < a.len() ==> !sep(#[trigger] a[i])) ==> text::pieces(a, sep)
            == seq![a],
{
    if sep(c) {
        text::lemma_pieces_joined(a, c, b, sep);
    }
    if forall|i: int| 0 <= i < a.len() ==> !sep(#[trigger] a[i]) {
        text::lemma_one_piece(a, sep);
    }
}

/// Members that hold something are kept, in their order, and empty ones are not.
pub proof fn law_filled_keeps_what_holds_something(p: Seq<Seq<char>>)
    ensures
        text::filled(p) == p.filter(|t: Seq<char>| t.len() > 0),
    decreases p.len(),
{
    reveal(Seq::filter);
    if p.len() > 0 {
        law_filled_keeps_what_holds_something(p.drop_last());
    } else {
        assert(text::filled(p) =~= p);
    }
}

/// White space parts words: the words of two texts with white space between
/// them are those of the one and then those of the other. A text without white
/// space is a word, unless it is empty.
pub proof fn law_words_are_parted_by_white_space(a: Seq<char>, c: char, b: Seq<char>)
    ensures
        text::is_white(c) ==> text::words(a.push(c) + b) == text::words(a) + text::words(b),
        (forall|i: int| 0 <= i < a.len() ==> !text::is_white(#[trigger] a[i])) && a.len() > 0
            ==> text::words(a) == seq![a],
        text::words(Seq::empty()).len() == 0,
{
    let sep = text::at_white();
    let keep = |t: Seq<char>| t.len() > 0;
    if text::is_white(c) {
        text::lemma_pieces_joined(a, c, b, sep);
        let p = text::pieces(a, sep);
        let q = text::pieces(b, sep);
        law_filled_keeps_what_holds_something(p);
        law_filled_keeps_what_holds_something(q);
        law_filled_keeps_what_holds_something(p + q);
        Seq::filter_distributes_over_add(p, q, keep);
    }
    reveal_with_fuel(text::filled, 3);
    if (forall|i: int| 0 <= i < a.len() ==> !text::is_white(#[trigger] a[i])) && a.len() > 0 {
        text::lemma_one_piece(a, sep);
        assert(seq![a].drop_last() =~= Seq::empty());
        assert(text::words(a) =~= seq![a]);
    }
    text::lemma_one_piece(Seq::empty(), sep);
    assert(seq![Seq::<char>::empty()].drop_last() =~= Seq::empty());
}

/// Joining puts the separator between neighbours and nowhere else.
pub proof fn law_join_puts_separators_between(
    a: Seq<Seq<char>>,
    b: Seq<Seq<char>>,
    one: Seq<char>,
    sep: Seq<char>,
)
    ensures
        text::join(Seq::empty(), sep).len() == 0,
        text::join(seq![one], sep) == one,
        a.len() > 0 && b.len() > 0 ==> text::join(a + b, sep) == text::join(a, sep) + sep
            + text::join(b, sep),
    decreases b.len(),
{
    if a.len() > 0 && b.len() > 0 {
        if b.len() == 1 {
            assert((a + b).drop_last() =~= a);
            assert(text::join(a, sep) + (sep + b[0]) =~= text::join(a, sep) + sep + b[0]);
        } else {
            let rest = b.drop_last();
            law_join_puts_separators_between(a, rest, one, sep);
            assert((a + b).drop_last() =~= a + rest);
            assert((a + b).last() == b.last());
            assert(text::join(a, sep) + sep + text::join(rest, sep) + (sep + b.last())
                =~= text::join(a, sep) + sep + (text::join(rest, sep) + (sep + b.last())));
        }
    }
}

/// A collapsed text is its words with one space between neighbours: white space
/// at the ends is gone, and what stood on both sides of white space stands on
/// both sides of one space.
pub proof fn law_collapsed_has_single_spaces(a: Seq<char>, c: char, b: Seq<char>)
    ensures
        (forall|i: int| 0 <= i < a.len() ==> !text::is_white(#[trigger] a[i])) ==> text::collapsed(
            a,
        ) == a,
        text::is_white(c) && text::collapsed(a).len() > 0 && text::collapsed(b).len() > 0
            ==> text::collapsed(a.push(c) + b) == text::collapsed(a) + seq![' '] + text::collapsed(
            b,
        ),
        text::is_white(c) && text::collapsed(a).len() == 0 ==> text::collapsed(a.push(c) + b)
            == text::collapsed(b),
        text::is_white(c) && text::collapsed(b).len() == 0 ==> text::collapsed(a.push(c) + b)
            == text::collapsed(a),
{
    law_words_are_parted_by_white_space(a, c, b);
    lemma_words_show(a);
    lemma_words_show(b);
    if a.len() == 0 {
        assert(a =~= Seq::empty());
    }
    let sep = seq![' '];
    if text::is_white(c) {
        if text::words(a).len() > 0 && text::words(b).len() > 0 {
            law_join_puts_separators_between(text::words(a), text::words(b), a, sep);
        } else if text::words(a).len() == 0 {
            assert(text::words(a) + text::words(b) =~= text::words(b));
        } else {
            assert(text::words(a) + text::words(b) =~= text::words(a));
        }
    }
}

/// Where there are words, something shows.
proof fn lemma_words_show(s: Seq<char>)
    ensures
        text::collapsed(s).len() == 0 <==> text::words(s).len() == 0,
{
    let words = text::words(s);
    if words.len() > 0 {
        text::lemma_filled(text::pieces(s, text::at_white()), words.len() - 1);
    }
}

/// A line ends at a newline, and a carriage return before it belongs to the end.
/// A last line without an end counts, unless there is nothing in it.
pub proof fn law_lines_end_at_newlines(a: Seq<char>, b: Seq<char>)
    requires
        !a.contains('\n'),
    ensures
        text::lines(Seq::empty()).len() == 0,
        a.len() > 0 ==> text::lines(a) == seq![a],
        a.len() == 0 || a.last() != '\r' ==> text::lines(a.push('\n') + b) == seq![a] + text::lines(
            b,
        ),
        a.len() > 0 && a.last() == '\r' ==> text::lines(a.push('\n') + b) == seq![a.drop_last()]
            + text::lines(b),
{
    let sep = text::at_newline();
    text::lemma_one_piece(Seq::empty(), sep);
    assert forall|i: int| 0 <= i < a.len() implies !sep(#[trigger] a[i]) by {
        assert(a.contains(a[i]));
    }
    text::lemma_one_piece(a, sep);
    text::lemma_pieces_joined(a, '\n', b, sep);
    text::lemma_pieces_split(b, sep);
    let p = text::pieces(b, sep);
    let whole = text::pieces(a.push('\n') + b, sep);
    assert(whole == seq![a] + p);
    assert(whole.last() == p.last());
    assert forall|i: int| 0 <= i < p.len() implies whole[i + 1] == p[i] by {}
    if a.len() > 0 {
        assert(text::lines(a) =~= seq![a]);
    }
    let first = text::without_return(a);
    assert(text::lines(a.push('\n') + b) =~= seq![first] + text::lines(b));
}

/// A number is written in decimal digits without leading zeros, and read back as
/// the number that it was, with or without a plus sign.
pub proof fn law_numbers_read_back(n: nat)
    ensures
        text::decimal(n).len() > 0,
        forall|i: int|
            0 <= i < text::decimal(n).len() ==> '0' <= #[trigger] text::decimal(n)[i] <= '9',
        text::decimal(n).len() > 1 ==> text::decimal(n)[0] != '0',
        text::unsigned_value(text::decimal(n)) == Some(n),
        text::unsigned_value(seq!['+'] + text::decimal(n)) == Some(n),
{
    lemma_decimal_digits(n);
    let s = text::decimal(n);
    assert((seq!['+'] + s).drop_first() =~= s);
    assert('0' <= s[0] <= '9');
}

proof fn lemma_decimal_digits(n: nat)
    ensures
        text::decimal(n).len() > 0,
        forall|i: int|
            0 <= i < text::decimal(n).len() ==> '0' <= #[trigger] text::decimal(n)[i] <= '9',
        text::decimal(n)[0] == '0' ==> n == 0,
        n < 10 ==> text::decimal(n).len() == 1,
        text::digits_value(text::decimal(n)) == n,
    decreases n,
{
    let s = text::decimal(n);
    if n < 10 {
        assert(s.drop_last() =~= Seq::empty());
        assert(text::digits_value(s.drop_last()) == 0);
    } else {
        lemma_decimal_digits(n / 10);
        assert(s.drop_last() =~= text::decimal(n / 10));
        assert(s[0] == text::decimal(n / 10)[0]);
    }
}

/// A text is a number exactly where it has digits and nothing else, but for a
/// plus sign before them. Each digit counts ten times what it would one place to
/// the right, and leading zeros do not count.
pub proof fn law_only_digits_are_numbers(s: Seq<char>, d: char)
    ensures
        text::unsigned_value(s) is Some <==> {
            ||| s.len() > 0 && forall|i: int| 0 <= i < s.len() ==> '0' <= #[trigger] s[i] <= '9'
            ||| s.len() > 1 && s[0] == '+' && forall|i: int|
                1 <= i < s.len() ==> '0' <= #[trigger] s[i] <= '9'
        },
        '0' <= d <= '9' ==> text::unsigned_value(seq![d]) == Some((d as u32 - '0' as u32) as nat),
        text::unsigned_value(s) is Some && '0' <= d <= '9' ==> text::unsigned_value(s.push(d))
            == Some(text::unsigned_value(s)->0 * 10 + (d as u32 - '0' as u32) as nat),
{
    let body = text::without_plus(s);
    if text::unsigned_value(s) is Some {
        if s[0] == '+' {
            assert(s.len() > 1);
            assert forall|i: int| 1 <= i < s.len() implies '0' <= #[trigger] s[i] <= '9' by {
                assert(body[i - 1] == s[i]);
            }
            assert(s.push(d).drop_first() =~= body.push(d));
        }
        assert(body.push(d).drop_last() =~= body);
        if '0' <= d <= '9' {
            assert(text::all_digits(body.push(d)));
            assert(text::without_plus(s.push(d)) =~= body.push(d));
        }
    }
    if s.len() > 1 && s[0] == '+' && forall|i: int|
        1 <= i < s.len() ==> '0' <= #[trigger] s[i] <= '9' {
        assert forall|i: int| 0 <= i < body.len() implies text::is_digit(#[trigger] body[i]) by {
            assert(body[i] == s[i + 1]);
        }
    }
    if '0' <= d <= '9' {
        assert(seq![d].drop_last() =~= Seq::empty());
        assert(text::digits_value(seq![d].drop_last()) == 0);
        assert(text::without_plus(seq![d]) =~= seq![d]);
    }
}

/// What is moved to the right ends its field, with nothing but spaces before it;
/// what is too long for the field stays as it is.
pub proof fn law_right_aligned_ends_the_field(s: Seq<char>, width: nat)
    ensures
        ({
            let field = text::right_aligned(s, width);
            &&& s.len() >= width ==> field == s
            &&& s.len() < width ==> field.len() == width && field.skip(width - s.len()) == s
            &&& forall|i: int| 0 <= i < field.len() - s.len() ==> #[trigger] field[i] == ' '
        }),
{
    let field = text::right_aligned(s, width);
    if s.len() < width {
        assert(field.skip(width - s.len()) =~= s);
    }
}

/// The first bytes of a text are whole characters from its start that take
/// exactly so many bytes in UTF-8, or all of a text that takes no more; where
/// they would end within a character there are none.
pub proof fn law_first_bytes_are_whole_characters(s: Seq<char>, n: nat)
    ensures
        text::first_bytes(s, n) matches Some(t) ==> {
            &&& t.is_prefix_of(s)
            &&& vstd::utf8::encode_utf8(t).len() == n || (t == s && vstd::utf8::encode_utf8(
                s,
            ).len() <= n)
        },
        text::first_bytes(s, n) is None ==> vstd::utf8::encode_utf8(s).len() > n && forall|k: int|
            0 <= k <= s.len() ==> #[trigger] vstd::utf8::encode_utf8(s.take(k)).len() != n,
    decreases s.len(),
{
    if s.len() > 0 {
        lemma_bytes_of_a_start(s);
        if n > 0 && text::char_bytes(s[0]) <= n {
            let rest = s.drop_first();
            let m = (n - text::char_bytes(s[0])) as nat;
            law_first_bytes_are_whole_characters(rest, m);
            if let Some(t) = text::first_bytes(rest, m) {
                let whole = seq![s[0]] + t;
                assert(whole.drop_first() =~= t);
                lemma_bytes_of_a_start(whole);
                assert(whole =~= s.subrange(0, whole.len() as int)) by {
                    assert forall|i: int| 0 <= i < whole.len() implies whole[i] == s[i] by {
                        if i > 0 {
                            assert(t[i - 1] == rest.subrange(0, t.len() as int)[i - 1]);
                        }
                    }
                }
                if t == rest {
                    assert(whole =~= s);
                }
            } else {
                assert forall|k: int| 0 <= k <= s.len() implies #[trigger] vstd::utf8::encode_utf8(
                    s.take(k),
                ).len() != n by {
                    if k > 0 {
                        assert(s.take(k).drop_first() =~= rest.take(k - 1));
                        lemma_bytes_of_a_start(s.take(k));
                        assert(vstd::utf8::encode_utf8(rest.take(k - 1)).len() != m);
                    }
                }
            }
        } else if n > 0 {
            assert forall|k: int| 0 <= k <= s.len() implies #[trigger] vstd::utf8::encode_utf8(
                s.take(k),
            ).len() != n by {
                if k > 0 {
                    lemma_bytes_of_a_start(s.take(k));
                }
            }
        } else {
            assert(Seq::<char>::empty() =~= s.subrange(0, 0));
        }
    } else {
        assert(Seq::<char>::empty() =~= s);
        assert(Seq::<char>::empty() =~= s.subrange(0, 0));
    }
}

proof fn lemma_bytes_of_a_start(s: Seq<char>)
    requires
        s.len() > 0,
    ensures
        vstd::utf8::encode_utf8(s).len() == text::char_bytes(s[0]) + vstd::utf8::encode_utf8(
            s.drop_first(),
        ).len(),
{
    lemma_bytes_of_a_character(s[0]);
}

proof fn lemma_bytes_of_a_character(c: char)
    ensures
        vstd::utf8::encode_scalar(c as u32).len() == text::char_bytes(c),
{
    vstd::utf8::char_is_scalar(c);
}

} // verus!
