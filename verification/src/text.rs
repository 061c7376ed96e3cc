//! Text as sequences of characters: the white space, trimming, splitting,
//! joining and ordering that the rest of the crate is stated over.
use vstd::prelude::*;
use vstd::string::*;

pub mod laws;

verus! {

/// The characters that carry the Unicode `White_Space` property.
pub open spec fn is_white(c: char) -> bool {
    let n = c as u32;
    ||| 0x0009 <= n <= 0x000d
    ||| n == 0x0020
    ||| n == 0x0085
    ||| n == 0x00a0
    ||| n == 0x1680
    ||| 0x2000 <= n <= 0x200a
    ||| n == 0x2028
    ||| n == 0x2029
    ||| n == 0x202f
    ||| n == 0x205f
    ||| n == 0x3000
}

/// Whether `c` is a white space character.
pub fn white(c: char) -> (r: bool)
    ensures
        r == is_white(c),
{
    let n: u32 = c as u32;
    (0x0009 <= n && n <= 0x000d) || n == 0x0020 || n == 0x0085 || n == 0x00a0 || n == 0x1680 || (
    0x2000 <= n && n <= 0x200a) || n == 0x2028 || n == 0x2029 || n == 0x202f || n == 0x205f || n
        == 0x3000
}

/// The characters of `s`, in order.
pub fn chars_of(s: &str) -> (r: Vec<char>)
    ensures
        r@ == s@,
{
    let mut out: Vec<char> = Vec::new();
    for c in it: s.chars()
        invariant
            out@ == it.seq().take(it.index() as int),
            it.seq() == s@,
    {
        out.push(c);
    }
    out
}

/// The views of a sequence of values, in order.
pub open spec fn views<T: View>(v: Seq<T>) -> Seq<T::V> {
    Seq::new(v.len(), |i: int| v[i]@)
}

/// Viewing commutes with appending one value.
pub broadcast proof fn lemma_views_push<T: View>(v: Seq<T>, x: T)
    ensures
        #[trigger] views(v.push(x)) == views(v).push(x@),
{
    assert(views(v.push(x)) =~= views(v).push(x@));
}

/// The view of an optional value.
pub open spec fn opt_view<T: View>(o: Option<T>) -> Option<T::V> {
    match o {
        Some(x) => Some(x@),
        None => None,
    }
}

/// Whether the two texts hold the same characters.
pub fn same_text(a: &str, b: &str) -> (r: bool)
    ensures
        r == (a@ == b@),
{
    let x = chars_of(a);
    let y = chars_of(b);
    if x.len() != y.len() {
        return false;
    }
    let mut i: usize = 0;
    while i < x.len()
        invariant
            i <= x.len(),
            x.len() == y.len(),
            x@ == a@,
            y@ == b@,
            forall|j: int| 0 <= j < i ==> x[j] == y[j],
        decreases x.len() - i,
    {
        if x[i] != y[i] {
            return false;
        }
        i = i + 1;
    }
    assert(a@ =~= b@);
    true
}

/// Whether `s` starts with `prefix`.
pub fn starts_with(s: &str, prefix: &str) -> (r: bool)
    ensures
        r == prefix@.is_prefix_of(s@),
{
    let x = chars_of(s);
    let y = chars_of(prefix);
    if x.len() < y.len() {
        return false;
    }
    let mut i: usize = 0;
    while i < y.len()
        invariant
            i <= y.len() <= x.len(),
            x@ == s@,
            y@ == prefix@,
            forall|j: int| 0 <= j < i ==> x[j] == y[j],
        decreases y.len() - i,
    {
        if x[i] != y[i] {
            assert(prefix@[i as int] != s@.subrange(0, prefix@.len() as int)[i as int]);
            return false;
        }
        i = i + 1;
    }
    assert(prefix@ =~= s@.subrange(0, prefix@.len() as int));
    true
}

/// `s` without its leading white space.
pub open spec fn trim_front(s: Seq<char>) -> Seq<char>
    decreases s.len(),
{
    if s.len() > 0 && is_white(s[0]) {
        trim_front(s.drop_first())
    } else {
        s
    }
}

/// `s` without its trailing white space.
pub open spec fn trim_back(s: Seq<char>) -> Seq<char>
    decreases s.len(),
{
    if s.len() > 0 && is_white(s.last()) {
        trim_back(s.drop_last())
    } else {
        s
    }
}

/// `s` without leading and trailing white space.
pub open spec fn trimmed(s: Seq<char>) -> Seq<char> {
    trim_back(trim_front(s))
}

/// Whether `s` holds nothing but white space.
pub open spec fn blank(s: Seq<char>) -> bool {
    forall|i: int| 0 <= i < s.len() ==> is_white(#[trigger] s[i])
}

proof fn lemma_trim_front(s: Seq<char>)
    ensures
        trim_front(s).len() <= s.len(),
        trim_front(s) == s.skip(s.len() - trim_front(s).len()),
        forall|i: int| 0 <= i < s.len() - trim_front(s).len() ==> is_white(#[trigger] s[i]),
        trim_front(s).len() > 0 ==> !is_white(trim_front(s)[0]),
    decreases s.len(),
{
    if s.len() > 0 && is_white(s[0]) {
        let t = s.drop_first();
        lemma_trim_front(t);
        let n = s.len() - trim_front(s).len();
        assert(t.skip(n - 1) =~= s.skip(n));
        assert forall|i: int| 0 <= i < n implies is_white(#[trigger] s[i]) by {
            if i > 0 {
                assert(t[i - 1] == s[i]);
            }
        }
    } else {
        assert(s.skip(0) =~= s);
    }
}

proof fn lemma_trim_back(s: Seq<char>)
    ensures
        trim_back(s).len() <= s.len(),
        trim_back(s) == s.take(trim_back(s).len() as int),
        forall|i: int| trim_back(s).len() <= i < s.len() ==> is_white(#[trigger] s[i]),
        trim_back(s).len() > 0 ==> !is_white(trim_back(s).last()),
    decreases s.len(),
{
    if s.len() > 0 && is_white(s.last()) {
        let t = s.drop_last();
        lemma_trim_back(t);
        let n = trim_back(s).len() as int;
        assert(t.take(n) =~= s.take(n));
        assert forall|i: int| n <= i < s.len() implies is_white(#[trigger] s[i]) by {
            if i < s.len() - 1 {
                assert(t[i] == s[i]);
            }
        }
    } else {
        assert(s.take(s.len() as int) =~= s);
    }
}

/// Trimming leaves nothing exactly when there was nothing but white space.
pub proof fn lemma_trimmed_empty(s: Seq<char>)
    ensures
        trimmed(s).len() == 0 <==> blank(s),
{
    let f = trim_front(s);
    lemma_trim_front(s);
    lemma_trim_back(f);
    let n = s.len() - f.len();
    if blank(s) {
        if f.len() > 0 {
            assert(f[0] == s[n]);
        }
    }
    if trimmed(s).len() == 0 {
        assert forall|i: int| 0 <= i < s.len() implies is_white(#[trigger] s[i]) by {
            if i >= n {
                assert(f[i - n] == s[i]);
            }
        }
    }
}

/// Trimming what has been trimmed changes nothing.
pub proof fn lemma_trimmed_twice(s: Seq<char>)
    ensures
        trimmed(trimmed(s)) == trimmed(s),
{
    let f = trim_front(s);
    lemma_trim_front(s);
    lemma_trim_back(f);
    let t = trimmed(s);
    if t.len() > 0 {
        assert(t[0] == f[0]);
    }
}

/// `s` without leading and trailing white space.
pub fn trim<'a>(s: &'a str) -> (r: &'a str)
    ensures
        r@ == trimmed(s@),
{
    let x = chars_of(s);
    let n: usize = x.len();
    let mut i: usize = 0;
    assert(s@.skip(0) =~= s@);
    while i < n && white(x[i])
        invariant
            i <= n,
            n == x.len(),
            x@ == s@,
            trim_front(s@) == trim_front(s@.skip(i as int)),
        decreases n - i,
    {
        assert(s@.skip(i as int).drop_first() =~= s@.skip(i + 1));
        i = i + 1;
    }
    let ghost f = s@.skip(i as int);
    assert(trim_front(s@) == f);
    let mut j: usize = n;
    assert(f.take(j - i) =~= f);
    while j > i && white(x[j - 1])
        invariant
            i <= j <= n,
            n == x.len(),
            x@ == s@,
            f == s@.skip(i as int),
            trim_back(f) == trim_back(f.take(j - i)),
        decreases j,
    {
        assert(f.take(j - i).drop_last() =~= f.take(j - i - 1));
        j = j - 1;
    }
    let r = s.substring_char(i, j);
    assert(r@ =~= f.take(j - i));
    r
}

/// Whether `s` holds nothing but white space.
pub fn is_blank(s: &str) -> (r: bool)
    ensures
        r == blank(s@),
{
    let x = chars_of(s);
    let mut i: usize = 0;
    while i < x.len()
        invariant
            i <= x.len(),
            x@ == s@,
            forall|j: int| 0 <= j < i ==> is_white(#[trigger] s@[j]),
        decreases x.len() - i,
    {
        if !white(x[i]) {
            return false;
        }
        i = i + 1;
    }
    true
}

/// At most the first `n` characters of `s`.
pub open spec fn first_chars(s: Seq<char>, n: nat) -> Seq<char> {
    if s.len() <= n {
        s
    } else {
        s.take(n as int)
    }
}

/// At most the first `n` characters of `s`.
pub fn take_chars(s: &str, n: usize) -> (r: String)
    ensures
        r@ == first_chars(s@, n as nat),
{
    let len: usize = s.unicode_len();
    if len <= n {
        s.to_owned()
    } else {
        s.substring_char(0, n).to_owned()
    }
}

/// `s` itself when it has at most `n` characters, and otherwise its first
/// `n` characters followed by `mark`.
pub open spec fn capped(s: Seq<char>, n: nat, mark: Seq<char>) -> Seq<char> {
    if s.len() <= n {
        s
    } else {
        s.take(n as int) + mark
    }
}

/// Caps `s` at `n` characters and appends `mark` when something was cut.
pub fn cap_text(s: &str, n: usize, mark: &str) -> (r: String)
    ensures
        r@ == capped(s@, n as nat, mark@),
{
    let mut out = take_chars(s, n);
    if s.unicode_len() > n {
        out.append(mark);
    }
    out
}

/// The pieces of `s` between the characters that `sep` accepts: always one
/// more than there are such characters, and empty where two of them meet.
pub open spec fn pieces(s: Seq<char>, sep: spec_fn(char) -> bool) -> Seq<Seq<char>>
    decreases s.len(),
{
    if s.len() == 0 {
        seq![Seq::<char>::empty()]
    } else {
        let before = pieces(s.drop_last(), sep);
        if sep(s.last()) {
            before.push(Seq::empty())
        } else {
            before.drop_last().push(before.last().push(s.last()))
        }
    }
}

/// The members of `p` that hold at least one character, in order.
pub open spec fn filled(p: Seq<Seq<char>>) -> Seq<Seq<char>>
    decreases p.len(),
{
    if p.len() == 0 {
        Seq::empty()
    } else if p.last().len() > 0 {
        filled(p.drop_last()).push(p.last())
    } else {
        filled(p.drop_last())
    }
}

/// The separator test of [`words`].
pub open spec fn at_white() -> spec_fn(char) -> bool {
    |c: char| is_white(c)
}

/// The maximal runs of characters other than white space, in order.
pub open spec fn words(s: Seq<char>) -> Seq<Seq<char>> {
    filled(pieces(s, at_white()))
}

proof fn lemma_filled_push(p: Seq<Seq<char>>, x: Seq<char>)
    ensures
        filled(p.push(x)) == if x.len() > 0 {
            filled(p).push(x)
        } else {
            filled(p)
        },
{
    assert(p.push(x).drop_last() =~= p);
}

/// The maximal runs of characters other than white space, in order.
pub fn split_words(s: &str) -> (r: Vec<String>)
    ensures
        views(r@) == words(s@),
{
    broadcast use lemma_views_push;

    let x = chars_of(s);
    let n: usize = x.len();
    let mut out: Vec<String> = Vec::new();
    let mut start: usize = 0;
    let mut i: usize = 0;
    assert(s@.take(0) =~= Seq::empty());
    proof {
        let p = pieces(s@.take(0), at_white());
        assert(p.drop_last() =~= Seq::empty());
        assert(views(out@) =~= filled(p.drop_last()));
        assert(s@.subrange(0, 0) =~= Seq::empty());
    }
    while i < n
        invariant
            start <= i <= n,
            n == x.len(),
            x@ == s@,
            pieces(s@.take(i as int), at_white()).len() > 0,
            pieces(s@.take(i as int), at_white()).last() == s@.subrange(start as int, i as int),
            views(out@) == filled(pieces(s@.take(i as int), at_white()).drop_last()),
        decreases n - i,
    {
        let ghost before = pieces(s@.take(i as int), at_white());
        let ghost after = pieces(s@.take(i + 1), at_white());
        assert(s@.take(i + 1).drop_last() =~= s@.take(i as int));
        if white(x[i]) {
            proof {
                assert(after == before.push(Seq::empty()));
                assert(after.drop_last() =~= before);
                assert(before =~= before.drop_last().push(before.last()));
                lemma_filled_push(before.drop_last(), before.last());
            }
            if start < i {
                out.push(s.substring_char(start, i).to_owned());
            }
            start = i + 1;
            assert(s@.subrange(i + 1, i + 1) =~= Seq::empty());
        } else {
            proof {
                assert(after.drop_last() =~= before.drop_last());
                assert(s@.subrange(start as int, i + 1) =~= s@.subrange(
                    start as int,
                    i as int,
                ).push(s@[i as int]));
            }
        }
        i = i + 1;
    }
    proof {
        let p = pieces(s@, at_white());
        assert(s@.take(n as int) =~= s@);
        assert(p =~= p.drop_last().push(p.last()));
        lemma_filled_push(p.drop_last(), p.last());
    }
    if start < n {
        out.push(s.substring_char(start, n).to_owned());
    }
    out
}

/// The parts, in order, with `sep` between neighbours.
pub open spec fn join(parts: Seq<Seq<char>>, sep: Seq<char>) -> Seq<char>
    decreases parts.len(),
{
    if parts.len() == 0 {
        Seq::empty()
    } else if parts.len() == 1 {
        parts[0]
    } else {
        join(parts.drop_last(), sep) + (sep + parts.last())
    }
}

/// The parts, in order, with `sep` between neighbours.
pub fn join_texts(parts: &Vec<String>, sep: &str) -> (r: String)
    ensures
        r@ == join(views(parts@), sep@),
{
    let mut out = String::new();
    let mut i: usize = 0;
    assert(views(parts@).take(0) =~= Seq::empty());
    while i < parts.len()
        invariant
            i <= parts.len(),
            out@ == join(views(parts@).take(i as int), sep@),
        decreases parts.len() - i,
    {
        assert(views(parts@).take(i + 1).drop_last() =~= views(parts@).take(i as int));
        if i > 0 {
            out.append(sep);
        }
        out.append(parts[i].as_str());
        assert(out@ =~= join(views(parts@).take(i + 1), sep@));
        i = i + 1;
    }
    assert(views(parts@).take(parts.len() as int) =~= views(parts@));
    out
}

/// `s` with every run of white space turned into one space, and none at
/// either end.
pub open spec fn collapsed(s: Seq<char>) -> Seq<char> {
    join(words(s), seq![' '])
}

/// `s` with every run of white space turned into one space, and none at
/// either end.
pub fn collapse(s: &str) -> (r: String)
    ensures
        r@ == collapsed(s@),
{
    let parts = split_words(s);
    proof {
        reveal_strlit(" ");
    }
    assert(" "@ =~= seq![' ']);
    join_texts(&parts, " ")
}

/// Whether `s` holds no white space but plain spaces.
pub open spec fn one_line(s: Seq<char>) -> bool {
    forall|i: int| 0 <= i < s.len() && is_white(#[trigger] s[i]) ==> s[i] == ' '
}

proof fn lemma_pieces_split(s: Seq<char>, sep: spec_fn(char) -> bool)
    ensures
        pieces(s, sep).len() > 0,
        forall|i: int, k: int|
            0 <= i < pieces(s, sep).len() && 0 <= k < pieces(s, sep)[i].len() ==> !sep(
                #[trigger] pieces(s, sep)[i][k],
            ),
    decreases s.len(),
{
    if s.len() > 0 {
        lemma_pieces_split(s.drop_last(), sep);
        let before = pieces(s.drop_last(), sep);
        let after = pieces(s, sep);
        assert forall|i: int, k: int|
            0 <= i < after.len() && 0 <= k < after[i].len() implies !sep(
            #[trigger] after[i][k],
        ) by {
            if i < before.len() - 1 || (i < before.len() && sep(s.last())) {
                assert(after[i] == before[i]);
                assert(!sep(before[i][k]));
            } else if !sep(s.last()) && k < before.last().len() {
                assert(after[i][k] == before[before.len() - 1][k]);
            }
        }
    }
}

/// Every member that holds something is one of the members.
pub proof fn lemma_filled(p: Seq<Seq<char>>, i: int)
    requires
        0 <= i < filled(p).len(),
    ensures
        filled(p)[i].len() > 0,
        p.contains(filled(p)[i]),
    decreases p.len(),
{
    if p.len() > 0 {
        let before = filled(p.drop_last());
        if i < before.len() {
            lemma_filled(p.drop_last(), i);
            let k = choose|k: int| 0 <= k < p.drop_last().len() && p.drop_last()[k] == before[i];
            assert(p[k] == before[i]);
        } else {
            assert(p[p.len() - 1] == filled(p)[i]);
        }
    }
}

proof fn lemma_joined_with_spaces(parts: Seq<Seq<char>>)
    requires
        forall|i: int, k: int|
            0 <= i < parts.len() && 0 <= k < parts[i].len() ==> !is_white(#[trigger] parts[i][k]),
    ensures
        one_line(join(parts, seq![' '])),
    decreases parts.len(),
{
    let sep = seq![' '];
    let whole = join(parts, sep);
    if parts.len() == 1 {
        assert forall|i: int| 0 <= i < whole.len() && is_white(#[trigger] whole[i]) implies whole[i]
            == ' ' by {
            assert(whole[i] == parts[0][i]);
        }
    } else if parts.len() > 1 {
        let rest = parts.drop_last();
        assert forall|i: int, k: int|
            0 <= i < rest.len() && 0 <= k < rest[i].len() implies !is_white(
            #[trigger] rest[i][k],
        ) by {
            assert(rest[i][k] == parts[i][k]);
        }
        lemma_joined_with_spaces(rest);
        let before = join(rest, sep);
        let n = parts.len() - 1;
        assert forall|i: int| 0 <= i < whole.len() && is_white(#[trigger] whole[i]) implies whole[i]
            == ' ' by {
            if i < before.len() {
                assert(whole[i] == before[i]);
            } else if i > before.len() {
                assert(whole[i] == parts[n][i - before.len() - 1]);
            }
        }
    }
}

/// A collapsed text is one line: it holds no white space but plain spaces.
pub proof fn law_collapsed_is_one_line(s: Seq<char>)
    ensures
        one_line(collapsed(s)),
{
    let all = pieces(s, at_white());
    let parts = words(s);
    lemma_pieces_split(s, at_white());
    assert forall|i: int, k: int|
        0 <= i < parts.len() && 0 <= k < parts[i].len() implies !is_white(
        #[trigger] parts[i][k],
    ) by {
        lemma_filled(all, i);
        let m = choose|m: int| 0 <= m < all.len() && all[m] == parts[i];
        assert(!at_white()(all[m][k]));
    }
    lemma_joined_with_spaces(parts);
}

/// The separator test of [`lines`].
pub open spec fn at_newline() -> spec_fn(char) -> bool {
    |c: char| c == '\n'
}

/// `s` without one carriage return at its end.
pub open spec fn without_return(s: Seq<char>) -> Seq<char> {
    if s.len() > 0 && s.last() == '\r' {
        s.drop_last()
    } else {
        s
    }
}

/// The lines of `s`. A line ends at a newline, or at a carriage return
/// followed by a newline; the end of the last line may be missing.
pub open spec fn lines(s: Seq<char>) -> Seq<Seq<char>> {
    let p = pieces(s, at_newline());
    let ended = Seq::new((p.len() - 1) as nat, |i: int| without_return(p[i]));
    if p.last().len() == 0 {
        ended
    } else {
        ended.push(p.last())
    }
}

proof fn lemma_pieces_joined(a: Seq<char>, c: char, b: Seq<char>, sep: spec_fn(char) -> bool)
    requires
        sep(c),
    ensures
        pieces(a.push(c) + b, sep) == pieces(a, sep) + pieces(b, sep),
    decreases b.len(),
{
    let whole = a.push(c) + b;
    if b.len() == 0 {
        assert(whole =~= a.push(c));
        assert(whole.drop_last() =~= a);
        assert(pieces(whole, sep) =~= pieces(a, sep) + pieces(b, sep));
    } else {
        let rest = b.drop_last();
        lemma_pieces_joined(a, c, rest, sep);
        lemma_pieces_split(rest, sep);
        assert(whole.drop_last() =~= a.push(c) + rest);
        assert(whole.last() == b.last());
        assert(pieces(whole, sep) =~= pieces(a, sep) + pieces(b, sep));
    }
}

proof fn lemma_one_piece(s: Seq<char>, sep: spec_fn(char) -> bool)
    requires
        forall|i: int| 0 <= i < s.len() ==> !sep(#[trigger] s[i]),
    ensures
        pieces(s, sep) == seq![s],
    decreases s.len(),
{
    if s.len() > 0 {
        let rest = s.drop_last();
        assert forall|i: int| 0 <= i < rest.len() implies !sep(#[trigger] rest[i]) by {
            assert(rest[i] == s[i]);
        }
        lemma_one_piece(rest, sep);
        assert(rest.push(s.last()) =~= s);
        assert(!sep(s[s.len() - 1]));
        assert(pieces(s, sep) =~= seq![s]);
    } else {
        assert(s =~= Seq::empty());
    }
}

proof fn lemma_pieces_of_join(parts: Seq<Seq<char>>)
    requires
        parts.len() > 0,
        forall|i: int| 0 <= i < parts.len() ==> !(#[trigger] parts[i]).contains('\n'),
    ensures
        pieces(join(parts, seq!['\n']), at_newline()) == parts,
    decreases parts.len(),
{
    let last = parts.last();
    assert(!parts[parts.len() - 1].contains('\n'));
    assert forall|i: int| 0 <= i < last.len() implies !at_newline()(#[trigger] last[i]) by {
        if last[i] == '\n' {
            assert(last.contains('\n'));
        }
    }
    lemma_one_piece(last, at_newline());
    if parts.len() == 1 {
        assert(seq![last] =~= parts);
    } else {
        let rest = parts.drop_last();
        assert forall|i: int| 0 <= i < rest.len() implies !(#[trigger] rest[i]).contains('\n') by {
            assert(rest[i] == parts[i]);
        }
        lemma_pieces_of_join(rest);
        let before = join(rest, seq!['\n']);
        lemma_pieces_joined(before, '\n', last, at_newline());
        assert(before.push('\n') + last =~= before + (seq!['\n'] + last));
        assert(rest + seq![last] =~= parts);
    }
}

/// Splitting into lines undoes joining lines: as long as none of them holds a
/// line end, or could lose a part of its own to one.
pub proof fn law_lines_undo_join(parts: Seq<Seq<char>>)
    requires
        forall|i: int|
            0 <= i < parts.len() ==> !(#[trigger] parts[i]).contains('\n') && parts[i].len() > 0
                && parts[i].last() != '\r',
    ensures
        lines(join(parts, seq!['\n'])) == parts,
{
    let whole = join(parts, seq!['\n']);
    if parts.len() == 0 {
        assert(lines(whole) =~= parts);
    } else {
        lemma_pieces_of_join(parts);
        let ended = Seq::new((parts.len() - 1) as nat, |i: int| without_return(parts[i]));
        assert(parts[parts.len() - 1].len() > 0);
        assert(ended =~= parts.drop_last());
        assert(ended.push(parts.last()) =~= parts);
    }
}

/// The lines of `s`, without their ends.
pub fn split_lines(s: &str) -> (r: Vec<String>)
    ensures
        views(r@) == lines(s@),
{
    broadcast use lemma_views_push;

    let x = chars_of(s);
    let n: usize = x.len();
    let mut out: Vec<String> = Vec::new();
    let mut start: usize = 0;
    let mut i: usize = 0;
    assert(s@.take(0) =~= Seq::empty());
    assert(s@.subrange(0, 0) =~= Seq::empty());
    while i < n
        invariant
            start <= i <= n,
            n == x.len(),
            x@ == s@,
            pieces(s@.take(i as int), at_newline()).len() == out.len() + 1,
            pieces(s@.take(i as int), at_newline()).last() == s@.subrange(start as int, i as int),
            forall|k: int|
                0 <= k < out.len() ==> (#[trigger] out@[k])@ == without_return(
                    pieces(s@.take(i as int), at_newline())[k],
                ),
        decreases n - i,
    {
        let ghost before = pieces(s@.take(i as int), at_newline());
        assert(s@.take(i + 1).drop_last() =~= s@.take(i as int));
        if x[i] == '\n' {
            let mut end: usize = i;
            if start < i && x[i - 1] == '\r' {
                end = i - 1;
            }
            out.push(s.substring_char(start, end).to_owned());
            assert(out@.last()@ =~= without_return(before.last()));
            start = i + 1;
            assert(s@.subrange(i + 1, i + 1) =~= Seq::empty());
        } else {
            assert(s@.subrange(start as int, i + 1) =~= s@.subrange(start as int, i as int).push(
                s@[i as int],
            ));
        }
        i = i + 1;
    }
    assert(s@.take(n as int) =~= s@);
    if start < n {
        out.push(s.substring_char(start, n).to_owned());
    }
    assert(views(out@) =~= lines(s@));
    out
}

/// How many characters of `s` come before the first one that `test` accepts;
/// all of them when it accepts none.
pub open spec fn first_at(s: Seq<char>, test: spec_fn(char) -> bool) -> nat
    decreases s.len(),
{
    if s.len() == 0 || test(s[0]) {
        0
    } else {
        1 + first_at(s.drop_first(), test)
    }
}

/// How many characters of `s` come up to and with the last `c`; zero when
/// there is none.
pub open spec fn past_last(s: Seq<char>, c: char) -> nat
    decreases s.len(),
{
    if s.len() == 0 {
        0
    } else if s.last() == c {
        s.len()
    } else {
        past_last(s.drop_last(), c)
    }
}

/// What stands in `s` before the first place where `mark` occurs, if it does.
pub open spec fn before_first(s: Seq<char>, mark: Seq<char>) -> Option<Seq<char>>
    decreases s.len(),
{
    if mark.is_prefix_of(s) {
        Some(Seq::empty())
    } else if s.len() == 0 {
        None
    } else {
        match before_first(s.drop_first(), mark) {
            Some(t) => Some(seq![s[0]] + t),
            None => None,
        }
    }
}

/// How many characters of `s` come before the first `c`.
pub fn find_first(s: &str, c: char) -> (r: usize)
    ensures
        r == first_at(s@, |d: char| d == c),
        r <= s@.len(),
{
    let x = chars_of(s);
    let ghost test = |d: char| d == c;
    let mut i: usize = 0;
    assert(s@.skip(0) =~= s@);
    while i < x.len() && x[i] != c
        invariant
            i <= x.len(),
            x@ == s@,
            test == (|d: char| d == c),
            first_at(s@, test) == i + first_at(s@.skip(i as int), test),
        decreases x.len() - i,
    {
        assert(s@.skip(i as int).drop_first() =~= s@.skip(i + 1));
        i = i + 1;
    }
    i
}

/// How many characters of `s` come up to and with the last `c`.
pub fn find_past_last(s: &str, c: char) -> (r: usize)
    ensures
        r == past_last(s@, c),
        r <= s@.len(),
{
    let x = chars_of(s);
    let mut i: usize = x.len();
    assert(s@.take(s@.len() as int) =~= s@);
    while i > 0 && x[i - 1] != c
        invariant
            i <= x.len(),
            x@ == s@,
            past_last(s@, c) == past_last(s@.take(i as int), c),
        decreases i,
    {
        assert(s@.take(i as int).drop_last() =~= s@.take(i - 1));
        i = i - 1;
    }
    i
}

fn matches_at(x: &Vec<char>, at: usize, y: &Vec<char>) -> (r: bool)
    requires
        at <= x.len(),
    ensures
        r == y@.is_prefix_of(x@.skip(at as int)),
{
    if x.len() - at < y.len() {
        return false;
    }
    let mut i: usize = 0;
    while i < y.len()
        invariant
            i <= y.len(),
            at <= x.len(),
            y.len() <= x.len() - at,
            forall|j: int| 0 <= j < i ==> x[at + j] == y[j],
        decreases y.len() - i,
    {
        if x[at + i] != y[i] {
            assert(x@.skip(at as int).subrange(0, y@.len() as int)[i as int] != y@[i as int]);
            return false;
        }
        i = i + 1;
    }
    assert(y@ =~= x@.skip(at as int).subrange(0, y@.len() as int));
    true
}

/// What stands in `s` before the first place where `mark` occurs, if it does.
pub fn text_before(s: &str, mark: &str) -> (r: Option<String>)
    ensures
        opt_view(r) == before_first(s@, mark@),
{
    let x = chars_of(s);
    let y = chars_of(mark);
    let n: usize = x.len();
    let mut i: usize = 0;
    assert(s@.skip(0) =~= s@);
    assert(before_first(s@, mark@) is Some ==> s@.take(0) + before_first(s@, mark@)->0
        =~= before_first(s@, mark@)->0);
    while !matches_at(&x, i, &y)
        invariant
            i <= n,
            n == x.len(),
            x@ == s@,
            y@ == mark@,
            before_first(s@, mark@) is Some <==> before_first(s@.skip(i as int), mark@) is Some,
            before_first(s@, mark@) is Some ==> before_first(s@, mark@)->0 == s@.take(i as int)
                + before_first(s@.skip(i as int), mark@)->0,
        decreases n - i,
    {
        if i == n {
            return None;
        }
        proof {
            let rest = s@.skip(i as int);
            assert(rest.drop_first() =~= s@.skip(i + 1));
            if before_first(rest, mark@) is Some {
                let t = before_first(s@.skip(i + 1), mark@)->0;
                assert(s@.take(i as int) + (seq![rest[0]] + t) =~= s@.take(i + 1) + t);
            }
        }
        i = i + 1;
    }
    let r = s.substring_char(0, i).to_owned();
    assert(r@ =~= s@.take(i as int) + Seq::<char>::empty());
    Some(r)
}

/// The digit `d` as a character.
pub open spec fn digit(d: nat) -> char {
    (48 + d) as char
}

/// `n` in decimal notation, without leading zeros.
pub open spec fn decimal(n: nat) -> Seq<char>
    decreases n,
{
    if n < 10 {
        seq![digit(n)]
    } else {
        decimal(n / 10).push(digit(n % 10))
    }
}

fn digit_text(d: u64) -> (r: &'static str)
    requires
        d < 10,
    ensures
        r@ == seq![digit(d as nat)],
{
    proof {
        reveal_strlit("0");
        reveal_strlit("1");
        reveal_strlit("2");
        reveal_strlit("3");
        reveal_strlit("4");
        reveal_strlit("5");
        reveal_strlit("6");
        reveal_strlit("7");
        reveal_strlit("8");
        reveal_strlit("9");
    }
    let r = match d {
        0 => "0",
        1 => "1",
        2 => "2",
        3 => "3",
        4 => "4",
        5 => "5",
        6 => "6",
        7 => "7",
        8 => "8",
        _ => "9",
    };
    assert(r@ =~= seq![digit(d as nat)]);
    r
}

/// `n` in decimal notation, without leading zeros.
pub fn decimal_text(n: u64) -> (r: String)
    ensures
        r@ == decimal(n as nat),
    decreases n,
{
    if n < 10 {
        digit_text(n).to_owned()
    } else {
        let mut out = decimal_text(n / 10);
        out.append(digit_text(n % 10));
        assert(out@ =~= decimal((n / 10) as nat).push(digit((n % 10) as nat)));
        out
    }
}

/// Different numbers have different notations.
pub proof fn lemma_decimal_injective(a: nat, b: nat)
    requires
        decimal(a) == decimal(b),
    ensures
        a == b,
    decreases a,
{
    assert(decimal(a).last() == digit(a % 10));
    assert(decimal(b).last() == digit(b % 10));
    assert(a % 10 == b % 10);
    lemma_decimal_nonempty(a / 10);
    lemma_decimal_nonempty(b / 10);
    if a >= 10 {
        assert(b >= 10) by {
            assert(decimal(a).len() >= 2);
        }
        assert(decimal(a).drop_last() =~= decimal(a / 10));
        assert(decimal(b).drop_last() =~= decimal(b / 10));
        lemma_decimal_injective(a / 10, b / 10);
    } else {
        assert(decimal(b).len() == 1);
    }
}

proof fn lemma_decimal_nonempty(n: nat)
    ensures
        decimal(n).len() > 0,
    decreases n,
{
}

/// Whether `c` is one of the ten decimal digits.
pub open spec fn is_digit(c: char) -> bool {
    '0' <= c <= '9'
}

/// The number that a row of decimal digits stands for.
pub open spec fn digits_value(s: Seq<char>) -> nat
    decreases s.len(),
{
    if s.len() == 0 {
        0
    } else {
        digits_value(s.drop_last()) * 10 + (s.last() as nat - 48) as nat
    }
}

/// Whether `s` is a row of at least one decimal digit.
pub open spec fn all_digits(s: Seq<char>) -> bool {
    s.len() > 0 && forall|i: int| 0 <= i < s.len() ==> is_digit(#[trigger] s[i])
}

/// `s` without one plus sign at its start.
pub open spec fn without_plus(s: Seq<char>) -> Seq<char> {
    if s.len() > 0 && s[0] == '+' {
        s.drop_first()
    } else {
        s
    }
}

/// The number that `s` stands for: decimal digits and nothing else, after an
/// optional plus sign.
pub open spec fn unsigned_value(s: Seq<char>) -> Option<nat> {
    if all_digits(without_plus(s)) {
        Some(digits_value(without_plus(s)))
    } else {
        None
    }
}

/// Reads a 16-bit unsigned number: none when `s` is not one, or one that is
/// too large.
pub fn parse_u16(s: &str) -> (r: Option<u16>)
    ensures
        match unsigned_value(s@) {
            Some(v) => if v <= u16::MAX {
                r == Some(v as u16)
            } else {
                r is None
            },
            None => r is None,
        },
{
    let x = chars_of(s);
    let n: usize = x.len();
    let mut from: usize = 0;
    if n > 0 && x[0] == '+' {
        from = 1;
    }
    let ghost d = s@.skip(from as int);
    assert(d =~= without_plus(s@));
    if from == n {
        return None;
    }
    let mut i: usize = from;
    let mut acc: u32 = 0;
    assert(d.take(0) =~= Seq::empty());
    while i < n
        invariant
            from <= i <= n,
            n == x.len(),
            x@ == s@,
            d == s@.skip(from as int),
            d == without_plus(s@),
            forall|j: int| 0 <= j < i - from ==> is_digit(#[trigger] d[j]),
            acc <= 0xffff ==> acc == digits_value(d.take(i - from)),
            acc > 0xffff ==> digits_value(d.take(i - from)) > 0xffff,
            acc <= 0x10000,
        decreases n - i,
    {
        let c = x[i];
        assert(c == d[i - from]);
        if c < '0' || c > '9' {
            assert(!is_digit(d[i - from]));
            return None;
        }
        assert(d.take(i + 1 - from).drop_last() =~= d.take(i - from));
        if acc <= 0xffff {
            acc = acc * 10 + (c as u32 - 48);
            if acc > 0xffff {
                acc = 0x10000;
            }
        }
        i = i + 1;
    }
    assert(d.take(n - from) =~= d);
    if acc <= 0xffff {
        Some(acc as u16)
    } else {
        None
    }
}

/// `s` moved to the right end of a field of `width` characters.
pub open spec fn right_aligned(s: Seq<char>, width: nat) -> Seq<char> {
    if s.len() >= width {
        s
    } else {
        Seq::new((width - s.len()) as nat, |i: int| ' ') + s
    }
}

/// `s` moved to the right end of a field of `width` characters.
pub fn align_right(s: &str, width: usize) -> (r: String)
    ensures
        r@ == right_aligned(s@, width as nat),
{
    let n: usize = s.unicode_len();
    let mut out = String::new();
    proof {
        reveal_strlit(" ");
    }
    if n < width {
        let mut i: usize = 0;
        while i < width - n
            invariant
                n < width,
                i <= width - n,
                " "@ =~= seq![' '],
                out@ =~= Seq::new(i as nat, |k: int| ' '),
            decreases width - n - i,
        {
            out.append(" ");
            i = i + 1;
        }
    }
    out.append(s);
    assert(out@ =~= right_aligned(s@, width as nat));
    out
}

/// `before`, `middle` and `after` in one.
pub fn around(before: &str, middle: &str, after: &str) -> (r: String)
    ensures
        r@ == before@ + middle@ + after@,
{
    let mut out = before.to_owned();
    out.append(middle);
    out.append(after);
    out
}

/// The number of bytes that a character takes in UTF-8.
pub open spec fn char_bytes(c: char) -> nat {
    let n = c as u32;
    if n < 0x80 {
        1
    } else if n < 0x800 {
        2
    } else if n < 0x10000 {
        3
    } else {
        4
    }
}

/// The characters that make up the first `n` bytes of `s`, or all of `s` where
/// it has fewer; none where the `n` bytes end within a character.
pub open spec fn first_bytes(s: Seq<char>, n: nat) -> Option<Seq<char>>
    decreases s.len(),
{
    if s.len() == 0 || n == 0 {
        Some(Seq::empty())
    } else if char_bytes(s[0]) > n {
        None
    } else {
        match first_bytes(s.drop_first(), (n - char_bytes(s[0])) as nat) {
            Some(rest) => Some(seq![s[0]] + rest),
            None => None,
        }
    }
}

/// The characters that make up the first `n` bytes of `s`, or all of `s` where
/// it has fewer; none where the `n` bytes end within a character.
pub fn take_bytes(s: &str, n: usize) -> (r: Option<String>)
    ensures
        opt_view(r) == first_bytes(s@, n as nat),
{
    let x = chars_of(s);
    let mut i: usize = 0;
    let mut left: usize = n;
    assert(s@.skip(0) =~= s@);
    assert(forall|rest: Seq<char>| s@.take(0) + rest =~= rest);
    while i < x.len() && left > 0
        invariant
            i <= x.len(),
            x@ == s@,
            first_bytes(s@, n as nat) == match first_bytes(s@.skip(i as int), left as nat) {
                Some(rest) => Some(s@.take(i as int) + rest),
                None => None,
            },
        decreases x.len() - i,
    {
        let c: u32 = x[i] as u32;
        let bytes: usize = if c < 0x80 {
            1
        } else if c < 0x800 {
            2
        } else if c < 0x10000 {
            3
        } else {
            4
        };
        assert(s@.skip(i as int)[0] == x@[i as int]);
        if bytes > left {
            return None;
        }
        assert(s@.skip(i as int).drop_first() =~= s@.skip(i + 1));
        assert(forall|rest: Seq<char>|
            #![trigger s@.take(i + 1) + rest]
            s@.take(i as int) + (seq![x@[i as int]] + rest) =~= s@.take(i + 1) + rest);
        left = left - bytes;
        i = i + 1;
    }
    assert(s@.take(i as int) + Seq::empty() =~= s@.take(i as int));
    assert(s@.take(i as int) =~= s@.subrange(0, i as int));
    Some(s.substring_char(0, i).to_owned())
}

/// The first character that a test accepts is found where it stands: none
/// before it is accepted. Where none is accepted, the end is found.
pub proof fn law_first_at(s: Seq<char>, test: spec_fn(char) -> bool)
    ensures
        first_at(s, test) <= s.len(),
        forall|i: int| 0 <= i < first_at(s, test) ==> !test(#[trigger] s[i]),
        first_at(s, test) < s.len() ==> test(s[first_at(s, test) as int]),
    decreases s.len(),
{
    if s.len() > 0 && !test(s[0]) {
        let rest = s.drop_first();
        law_first_at(rest, test);
        assert forall|i: int| 0 <= i < first_at(s, test) implies !test(#[trigger] s[i]) by {
            if i > 0 {
                assert(rest[i - 1] == s[i]);
            }
        }
    }
}

/// The last `c` is found where it stands: none comes behind it. Where there is
/// none, nothing is found.
pub proof fn law_past_last(s: Seq<char>, c: char)
    ensures
        past_last(s, c) <= s.len(),
        past_last(s, c) > 0 ==> s[past_last(s, c) - 1] == c,
        forall|i: int| past_last(s, c) <= i < s.len() ==> #[trigger] s[i] != c,
    decreases s.len(),
{
    if s.len() > 0 && s.last() != c {
        let rest = s.drop_last();
        law_past_last(rest, c);
        assert forall|i: int| past_last(s, c) <= i < s.len() implies #[trigger] s[i] != c by {
            if i < rest.len() {
                assert(rest[i] == s[i]);
            }
        }
    }
}

/// What comes before a mark ends where the mark first occurs; there is nothing
/// before a mark that does not occur.
pub proof fn law_before_first(s: Seq<char>, mark: Seq<char>)
    ensures
        before_first(s, mark) matches Some(t) ==> {
            &&& t.len() + mark.len() <= s.len()
            &&& t == s.take(t.len() as int)
            &&& s.subrange(t.len() as int, (t.len() + mark.len()) as int) == mark
            &&& forall|k: int|
                0 <= k < t.len() && k + mark.len() <= s.len() ==> #[trigger] s.subrange(
                    k,
                    k + mark.len(),
                ) != mark
        },
        before_first(s, mark) is None ==> forall|k: int|
            0 <= k && k + mark.len() <= s.len() ==> #[trigger] s.subrange(k, k + mark.len())
                != mark,
    decreases s.len(),
{
    let n = mark.len() as int;
    if mark.is_prefix_of(s) {
        assert(s.subrange(0, n) =~= mark);
        assert(s.take(0) =~= Seq::empty());
    } else if s.len() > 0 {
        let rest = s.drop_first();
        law_before_first(rest, mark);
        assert forall|k: int|
            0 <= k && k + n <= s.len() && (before_first(s, mark) matches Some(t) ==> k
                < t.len()) implies #[trigger] s.subrange(k, k + n) != mark by {
            if k > 0 {
                assert(rest.subrange(k - 1, k - 1 + n) =~= s.subrange(k, k + n));
            }
        }
        if let Some(t) = before_first(rest, mark) {
            let whole = seq![s[0]] + t;
            assert(whole =~= s.take(whole.len() as int)) by {
                assert forall|k: int| 0 <= k < whole.len() implies whole[k] == s[k] by {
                    if k > 0 {
                        assert(t[k - 1] == rest.take(t.len() as int)[k - 1]);
                    }
                }
            }
            assert(s.subrange(whole.len() as int, whole.len() + n) =~= rest.subrange(
                t.len() as int,
                t.len() + n,
            ));
        }
    } else {
        assert forall|k: int| 0 <= k && k + n <= s.len() implies #[trigger] s.subrange(k, k + n)
            != mark by {}
    }
}

} // verus!
