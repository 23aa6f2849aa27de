//! Text helpers over `char` sequences: trimming, substring search and
//! ASCII case folding.

use vstd::prelude::*;

use crate::external::{is_whitespace, white_space};

verus! {

/// `s` without its leading whitespace.
pub open spec fn trim_start(s: Seq<char>) -> Seq<char>
    decreases s.len(),
{
    if s.len() > 0 && white_space(s[0]) {
        trim_start(s.drop_first())
    } else {
        s
    }
}

/// `s` without its trailing whitespace.
pub open spec fn trim_end(s: Seq<char>) -> Seq<char>
    decreases s.len(),
{
    if s.len() > 0 && white_space(s.last()) {
        trim_end(s.drop_last())
    } else {
        s
    }
}

/// `s` without its leading and trailing whitespace, as `str::trim` returns it.
pub open spec fn trimmed(s: Seq<char>) -> Seq<char> {
    trim_end(trim_start(s))
}

/// Whether `needle` occurs in `hay` as a contiguous run (the empty text occurs everywhere).
pub open spec fn occurs_in(hay: Seq<char>, needle: Seq<char>) -> bool {
    exists|i: int|
        0 <= i && i + needle.len() <= hay.len() && #[trigger] hay.subrange(i, i + needle.len())
            == needle
}

/// `c` with an ASCII lower-case letter mapped to upper case, as
/// `char::to_ascii_uppercase` does.
pub open spec fn ascii_upper_char(c: char) -> char {
    if 'a' <= c && c <= 'z' {
        ((c as u32) - 32) as char
    } else {
        c
    }
}

/// `s` with its ASCII lower-case letters mapped to upper case, as
/// `str::to_ascii_uppercase` does.
pub open spec fn ascii_upper(s: Seq<char>) -> Seq<char> {
    s.map_values(|c: char| ascii_upper_char(c))
}

/// Upper-casing ASCII letters twice is the same as once.
pub proof fn lemma_ascii_upper_idempotent(s: Seq<char>)
    ensures
        ascii_upper(ascii_upper(s)) == ascii_upper(s),
{
    assert forall|i: int| 0 <= i < s.len() implies ascii_upper_char(ascii_upper_char(#[trigger] s[i]))
        == ascii_upper_char(s[i]) by {
        let c = s[i];
        if 'a' <= c && c <= 'z' {
            let u = ((c as u32) - 32) as char;
            assert(u as u32 == (c as u32) - 32);
        }
    }
    assert(ascii_upper(ascii_upper(s)) =~= ascii_upper(s));
}

/// The characters of `s`.
pub fn chars_of(s: &str) -> (v: Vec<char>)
    ensures
        v@ == s@,
{
    let n: usize = s.unicode_len();
    let mut v: Vec<char> = Vec::with_capacity(n);
    let mut i: usize = 0;
    while i < n
        invariant
            n == s@.len(),
            i <= n,
            v@ == s@.subrange(0, i as int),
        decreases n - i,
    {
        v.push(s.get_char(i));
        i = i + 1;
    }
    v
}

proof fn lemma_trim_start_skips(s: Seq<char>, i: int)
    requires
        0 <= i <= s.len(),
        forall|k: int| 0 <= k < i ==> white_space(#[trigger] s[k]),
        i < s.len() ==> !white_space(s[i]),
    ensures
        trim_start(s) == s.subrange(i, s.len() as int),
    decreases i,
{
    if i == 0 {
        assert(s.subrange(0, s.len() as int) =~= s);
    } else {
        let t = s.drop_first();
        assert forall|k: int| 0 <= k < i - 1 implies white_space(#[trigger] t[k]) by {
            assert(t[k] == s[k + 1]);
        }
        lemma_trim_start_skips(t, i - 1);
        assert(t.subrange(i - 1, t.len() as int) =~= s.subrange(i, s.len() as int));
    }
}

proof fn lemma_trim_end_skips(s: Seq<char>, j: int)
    requires
        0 <= j <= s.len(),
        forall|k: int| j <= k < s.len() ==> white_space(#[trigger] s[k]),
        j > 0 ==> !white_space(s[j - 1]),
    ensures
        trim_end(s) == s.subrange(0, j),
    decreases s.len() - j,
{
    if j == s.len() {
        assert(s.subrange(0, j) =~= s);
    } else {
        let t = s.drop_last();
        assert forall|k: int| j <= k < t.len() implies white_space(#[trigger] t[k]) by {
            assert(t[k] == s[k]);
        }
        lemma_trim_end_skips(t, j);
        assert(t.subrange(0, j) =~= s.subrange(0, j));
    }
}

/// `s` without leading and trailing whitespace (`str::trim`).
pub fn trim(s: &str) -> (r: &str)
    ensures
        r@ == trimmed(s@),
{
    let n: usize = s.unicode_len();
    let mut i: usize = 0;
    while i < n && is_whitespace(s.get_char(i))
        invariant
            n == s@.len(),
            i <= n,
            forall|k: int| 0 <= k < i ==> white_space(#[trigger] s@[k]),
        decreases n - i,
    {
        i = i + 1;
    }
    let mut j: usize = n;
    while j > i && is_whitespace(s.get_char(j - 1))
        invariant
            n == s@.len(),
            i <= j <= n,
            forall|k: int| j <= k < n ==> white_space(#[trigger] s@[k]),
        decreases j,
    {
        j = j - 1;
    }
    proof {
        lemma_trim_start_skips(s@, i as int);
        let t = s@.subrange(i as int, n as int);
        assert forall|k: int| j - i <= k < t.len() implies white_space(#[trigger] t[k]) by {
            assert(t[k] == s@[k + i]);
        }
        if j > i {
            assert(t[j - i - 1] == s@[j - 1]);
        }
        lemma_trim_end_skips(t, j - i);
        assert(t.subrange(0, j - i) =~= s@.subrange(i as int, j as int));
    }
    s.substring_char(i, j)
}

/// Whether `needle` occurs in `hay` (`str::contains`).
pub fn contains_text(hay: &str, needle: &str) -> (r: bool)
    ensures
        r == occurs_in(hay@, needle@),
{
    let h = chars_of(hay);
    let n = chars_of(needle);
    if n.len() == 0 {
        assert(hay@.subrange(0int, 0int + needle@.len()) =~= needle@);
        return true;
    }
    if n.len() > h.len() {
        return false;
    }
    let last: usize = h.len() - n.len();
    let mut i: usize = 0;
    while i <= last
        invariant
            h@ == hay@,
            n@ == needle@,
            0 < n@.len() <= h@.len() <= usize::MAX,
            last == h@.len() - n@.len(),
            i <= last + 1,
            forall|k: int|
                0 <= k < i ==> #[trigger] h@.subrange(k, k + n@.len()) != n@,
        decreases last + 1 - i,
    {
        let mut j: usize = 0;
        while j < n.len() && h[i + j] == n[j]
            invariant
                h@ == hay@,
                n@ == needle@,
                0 < n@.len() <= h@.len() <= usize::MAX,
                last == h@.len() - n@.len(),
                i <= last,
                j <= n@.len(),
                forall|k: int| 0 <= k < j ==> h@[i + k] == n@[k],
            decreases n@.len() - j,
        {
            j = j + 1;
        }
        if j == n.len() {
            assert(h@.subrange(i as int, i + n@.len()) =~= n@);
            return true;
        }
        assert(h@.subrange(i as int, i + n@.len())[j as int] != n@[j as int]);
        i = i + 1;
    }
    assert forall|k: int| 0 <= k && k + needle@.len() <= hay@.len() implies #[trigger] hay@.subrange(k, k + needle@.len()) != needle@ by {
        assert(h@.subrange(k, k + n@.len()) != n@);
    }
    false
}

/// Whether `s`, with its ASCII letters in upper case, is `upper`.
pub fn equals_ascii_upper(s: &str, upper: &str) -> (r: bool)
    ensures
        r == (ascii_upper(s@) == upper@),
{
    let n: usize = s.unicode_len();
    if n != upper.unicode_len() {
        return false;
    }
    let mut i: usize = 0;
    while i < n
        invariant
            n == s@.len(),
            n == upper@.len(),
            i <= n,
            forall|k: int| 0 <= k < i ==> ascii_upper_char(#[trigger] s@[k]) == upper@[k],
        decreases n - i,
    {
        let c = s.get_char(i);
        let u = if 'a' <= c && c <= 'z' {
            ((c as u8) - 32) as char
        } else {
            c
        };
        if u != upper.get_char(i) {
            assert(ascii_upper(s@)[i as int] != upper@[i as int]);
            return false;
        }
        i = i + 1;
    }
    assert(ascii_upper(s@) =~= upper@);
    true
}

/// The pieces of `s` between commas, as `str::split(',')` yields them (a
/// text with `n` commas has `n + 1` pieces, some possibly empty).
pub open spec fn split_commas(s: Seq<char>) -> Seq<Seq<char>>
    decreases s.len(),
{
    if s.len() == 0 {
        seq![Seq::<char>::empty()]
    } else {
        let pieces = split_commas(s.drop_last());
        if s.last() == ',' {
            pieces.push(Seq::<char>::empty())
        } else {
            pieces.update(pieces.len() - 1, pieces.last().push(s.last()))
        }
    }
}

/// Whether a text is not empty.
pub open spec fn non_empty() -> spec_fn(Seq<char>) -> bool {
    |t: Seq<char>| t.len() > 0
}

/// Each text of `list`, trimmed.
pub open spec fn trim_each(list: Seq<Seq<char>>) -> Seq<Seq<char>> {
    list.map_values(|t: Seq<char>| trimmed(t))
}

/// The trimmed, non-empty pieces of `s` between commas.
pub open spec fn comma_list(s: Seq<char>) -> Seq<Seq<char>> {
    trim_each(split_commas(s)).filter(non_empty())
}

proof fn lemma_split_commas_step(s: Seq<char>, done: Seq<Seq<char>>, start: int, i: int)
    requires
        0 <= start <= i < s.len(),
        split_commas(s.take(i)) == done.push(s.subrange(start, i)),
    ensures
        s[i] == ',' ==> split_commas(s.take(i + 1)) == done.push(s.subrange(start, i)).push(
            Seq::<char>::empty(),
        ),
        s[i] != ',' ==> split_commas(s.take(i + 1)) == done.push(s.subrange(start, i + 1)),
{
    assert(s.take(i + 1).drop_last() =~= s.take(i));
    assert(s.take(i + 1).last() == s[i]);
    if s[i] != ',' {
        assert(s.subrange(start, i).push(s[i]) =~= s.subrange(start, i + 1));
        assert(done.push(s.subrange(start, i)).update(done.len() as int, s.subrange(start, i + 1))
            =~= done.push(s.subrange(start, i + 1)));
    }
}

/// Appends `piece`, trimmed, to `out` when the trimmed piece is not empty.
fn push_trimmed_piece(out: &mut Vec<String>, piece: &str, Ghost(done): Ghost<Seq<Seq<char>>>)
    requires
        old(out).deep_view() == trim_each(done).filter(non_empty()),
    ensures
        final(out).deep_view() == trim_each(done.push(piece@)).filter(
            non_empty(),
        ),
{
    let t = trim(piece);
    let ghost before = out.deep_view();
    assert(trim_each(done.push(piece@)) =~= trim_each(done).push(trimmed(piece@)));
    proof {
        trim_each(done).lemma_filter_push(trimmed(piece@), non_empty());
    }
    if !t.is_empty() {
        out.push(t.to_owned());
        assert(out.deep_view() =~= before.push(t@));
    }
}

/// The trimmed, non-empty pieces of `raw` between commas.
pub fn split_comma_list(raw: &str) -> (r: Vec<String>)
    ensures
        r.deep_view() == comma_list(raw@),
{
    let n: usize = raw.unicode_len();
    let mut out: Vec<String> = Vec::new();
    let ghost mut done: Seq<Seq<char>> = Seq::empty();
    let mut start: usize = 0;
    let mut i: usize = 0;
    proof {
        reveal(Seq::filter);
        assert(raw@.take(0) =~= Seq::<char>::empty());
        assert(split_commas(raw@.take(0)) =~= done.push(raw@.subrange(0, 0)));
        assert(out.deep_view() =~= trim_each(done).filter(non_empty()));
    }
    while i < n
        invariant
            n == raw@.len(),
            start <= i <= n,
            split_commas(raw@.take(i as int)) == done.push(raw@.subrange(start as int, i as int)),
            out.deep_view() == trim_each(done).filter(non_empty()),
        decreases n - i,
    {
        proof {
            lemma_split_commas_step(raw@, done, start as int, i as int);
        }
        if raw.get_char(i) == ',' {
            let piece = raw.substring_char(start, i);
            push_trimmed_piece(&mut out, piece, Ghost(done));
            proof {
                done = done.push(piece@);
                assert(raw@.subrange(i + 1, i + 1) =~= Seq::<char>::empty());
            }
            start = i + 1;
        }
        i = i + 1;
    }
    let piece = raw.substring_char(start, n);
    push_trimmed_piece(&mut out, piece, Ghost(done));
    assert(raw@.take(n as int) =~= raw@);
    out
}

/// `list` joined with `sep` between consecutive items, as `[T]::join` does.
pub open spec fn joined(list: Seq<Seq<char>>, sep: Seq<char>) -> Seq<char>
    decreases list.len(),
{
    if list.len() == 0 {
        Seq::empty()
    } else if list.len() == 1 {
        list[0]
    } else {
        joined(list.drop_last(), sep) + sep + list.last()
    }
}

/// Whether a text reads back unchanged as one piece of a comma list: it is
/// not empty, holds no comma, and neither starts nor ends with white space.
pub open spec fn plain_piece(t: Seq<char>) -> bool {
    &&& t.len() > 0
    &&& forall|i: int| 0 <= i < t.len() ==> #[trigger] t[i] != ','
    &&& !white_space(t[0])
    &&& !white_space(t.last())
}

/// The pieces that `str::split(',')` gives of `list` joined with `", "`:
/// each item after the first carries the space that followed its comma.
pub open spec fn spaced(list: Seq<Seq<char>>) -> Seq<Seq<char>>
    decreases list.len(),
{
    if list.len() <= 1 {
        list
    } else {
        spaced(list.drop_last()).push(seq![' '] + list.last())
    }
}

proof fn lemma_split_without_comma(t: Seq<char>)
    requires
        forall|i: int| 0 <= i < t.len() ==> #[trigger] t[i] != ',',
    ensures
        split_commas(t) == seq![t],
    decreases t.len(),
{
    if t.len() == 0 {
        assert(t =~= Seq::<char>::empty());
    } else {
        assert(t[t.len() - 1] != ',');
        let u = t.drop_last();
        assert forall|i: int| 0 <= i < u.len() implies #[trigger] u[i] != ',' by {
            assert(u[i] == t[i]);
        }
        lemma_split_without_comma(u);
        assert(u.push(t.last()) =~= t);
        assert(seq![u].update(0, u.push(t.last())) =~= seq![t]);
    }
}

proof fn lemma_split_after_comma(x: Seq<char>, y: Seq<char>)
    requires
        forall|i: int| 0 <= i < y.len() ==> #[trigger] y[i] != ',',
    ensures
        split_commas(x.push(',') + y) == split_commas(x).push(y),
    decreases y.len(),
{
    if y.len() == 0 {
        assert(y =~= Seq::<char>::empty());
        assert(x.push(',') + y =~= x.push(','));
        assert((x.push(',') + y).drop_last() =~= x);
    } else {
        assert(y[y.len() - 1] != ',');
        let z = y.drop_last();
        assert forall|i: int| 0 <= i < z.len() implies #[trigger] z[i] != ',' by {
            assert(z[i] == y[i]);
        }
        lemma_split_after_comma(x, z);
        let s = x.push(',') + y;
        assert(s.drop_last() =~= x.push(',') + z);
        assert(s.last() == y.last());
        assert(z.push(y.last()) =~= y);
        let p = split_commas(x).push(z);
        assert(p.update(p.len() - 1, p.last().push(s.last())) =~= split_commas(x).push(y));
    }
}

proof fn lemma_split_joined(list: Seq<Seq<char>>)
    requires
        forall|k: int| 0 <= k < list.len() ==> plain_piece(#[trigger] list[k]),
    ensures
        list.len() > 0 ==> split_commas(joined(list, seq![',', ' '])) == spaced(list),
    decreases list.len(),
{
    if list.len() == 1 {
        assert(plain_piece(list[0]));
        lemma_split_without_comma(list[0]);
        assert(seq![list[0]] =~= list);
    } else if list.len() > 1 {
        let front = list.drop_last();
        assert forall|k: int| 0 <= k < front.len() implies plain_piece(#[trigger] front[k]) by {
            assert(front[k] == list[k]);
        }
        lemma_split_joined(front);
        let last = list.last();
        assert(plain_piece(list[list.len() - 1]));
        let y = seq![' '] + last;
        assert forall|i: int| 0 <= i < y.len() implies #[trigger] y[i] != ',' by {
            if i > 0 {
                assert(y[i] == last[i - 1]);
            }
        }
        let x = joined(front, seq![',', ' ']);
        assert(x + seq![',', ' '] + last =~= x.push(',') + y);
        lemma_split_after_comma(x, y);
    }
}

proof fn lemma_trim_spaced(list: Seq<Seq<char>>)
    requires
        forall|k: int| 0 <= k < list.len() ==> plain_piece(#[trigger] list[k]),
    ensures
        trim_each(spaced(list)) == list,
    decreases list.len(),
{
    if list.len() == 1 {
        let t = list[0];
        assert(plain_piece(t));
        assert(trim_start(t) == t);
        assert(trim_end(t) == t);
        assert(trim_each(list) =~= list);
    } else if list.len() > 1 {
        let front = list.drop_last();
        assert forall|k: int| 0 <= k < front.len() implies plain_piece(#[trigger] front[k]) by {
            assert(front[k] == list[k]);
        }
        lemma_trim_spaced(front);
        let t = list.last();
        assert(plain_piece(list[list.len() - 1]));
        let y = seq![' '] + t;
        assert(white_space(y[0]));
        assert(y.drop_first() =~= t);
        assert(trim_start(t) == t);
        assert(trim_start(y) == t);
        assert(trim_end(t) == t);
        assert(trim_each(spaced(front).push(y)) =~= trim_each(spaced(front)).push(trimmed(y)));
        assert(front.push(t) =~= list);
    }
}

proof fn lemma_filter_keeps_non_empty(list: Seq<Seq<char>>)
    requires
        forall|k: int| 0 <= k < list.len() ==> (#[trigger] list[k]).len() > 0,
    ensures
        list.filter(non_empty()) == list,
    decreases list.len(),
{
    if list.len() == 0 {
        reveal(Seq::filter);
        assert(list.filter(non_empty()) =~= list);
    } else {
        let front = list.drop_last();
        assert forall|k: int| 0 <= k < front.len() implies (#[trigger] front[k]).len() > 0 by {
            assert(front[k] == list[k]);
        }
        lemma_filter_keeps_non_empty(front);
        assert(front.push(list.last()) =~= list);
        front.lemma_filter_push(list.last(), non_empty());
    }
}

/// A list joined with `", "` splits back into the same list, when each item
/// is not empty, holds no comma, and neither starts nor ends with white space.
pub(crate) proof fn lemma_comma_list_of_joined(list: Seq<Seq<char>>)
    requires
        forall|k: int| 0 <= k < list.len() ==> plain_piece(#[trigger] list[k]),
    ensures
        comma_list(joined(list, seq![',', ' '])) == list,
{
    if list.len() == 0 {
        reveal(Seq::filter);
        let pieces = seq![Seq::<char>::empty()];
        assert(trim_each(pieces) =~= pieces);
        assert(pieces.filter(non_empty()) =~= Seq::<Seq<char>>::empty()) by {
            Seq::<Seq<char>>::empty().lemma_filter_push(Seq::<char>::empty(), non_empty());
            assert(Seq::<Seq<char>>::empty().push(Seq::<char>::empty()) =~= pieces);
        }
    } else {
        lemma_split_joined(list);
        lemma_trim_spaced(list);
        assert forall|k: int| 0 <= k < list.len() implies (#[trigger] list[k]).len() > 0 by {
            assert(plain_piece(list[k]));
        }
        lemma_filter_keeps_non_empty(list);
    }
}

/// The items of `list` joined with `sep` between consecutive items.
pub fn join_with(list: &Vec<String>, sep: &str) -> (r: String)
    ensures
        r@ == joined(list.deep_view(), sep@),
{
    let mut out = String::new();
    let ghost items = list.deep_view();
    let mut i: usize = 0;
    while i < list.len()
        invariant
            items == list.deep_view(),
            i <= list@.len(),
            out@ == joined(items.take(i as int), sep@),
        decreases list@.len() - i,
    {
        assert(items.take(i + 1).drop_last() =~= items.take(i as int));
        assert(items[i as int] == list@[i as int]@);
        if i > 0 {
            out.append(sep);
        }
        out.append(list[i].as_str());
        proof {
            if i == 0 {
                assert(Seq::<char>::empty() + items[0] =~= items[0]);
            }
        }
        i = i + 1;
    }
    assert(items.take(i as int) =~= items);
    out
}

/// Whether `c` is an ASCII decimal digit.
pub open spec fn is_digit(c: char) -> bool {
    '0' <= c && c <= '9'
}

/// The value of the decimal digits `d`.
pub open spec fn decimal_value(d: Seq<char>) -> int
    decreases d.len(),
{
    if d.len() == 0 {
        0
    } else {
        decimal_value(d.drop_last()) * 10 + ((d.last() as int) - ('0' as int))
    }
}

/// Whether every character of `d` is an ASCII decimal digit.
pub open spec fn all_digits(d: Seq<char>) -> bool {
    forall|i: int| 0 <= i < d.len() ==> is_digit(#[trigger] d[i])
}

/// Whether `s` starts with a `+` or `-` sign.
pub open spec fn has_sign(s: Seq<char>) -> bool {
    s.len() > 0 && (s[0] == '-' || s[0] == '+')
}

/// `s` without its leading sign.
pub open spec fn unsigned_part(s: Seq<char>) -> Seq<char> {
    if has_sign(s) {
        s.drop_first()
    } else {
        s
    }
}

/// What `str::parse::<i32>` yields: an optional `+` or `-` followed by at
/// least one decimal digit and nothing else, whose value is in range.
pub open spec fn parsed_i32(s: Seq<char>) -> Option<i32> {
    let digits = unsigned_part(s);
    let v = if s.len() > 0 && s[0] == '-' {
        -decimal_value(digits)
    } else {
        decimal_value(digits)
    };
    if digits.len() > 0 && all_digits(digits) && i32::MIN <= v <= i32::MAX {
        Some(v as i32)
    } else {
        None
    }
}

proof fn lemma_decimal_value_nonneg(d: Seq<char>)
    requires
        forall|i: int| 0 <= i < d.len() ==> is_digit(#[trigger] d[i]),
    ensures
        decimal_value(d) >= 0,
    decreases d.len(),
{
    if d.len() > 0 {
        lemma_decimal_value_nonneg(d.drop_last());
        assert(is_digit(d[d.len() - 1]));
    }
}

/// Parses a decimal `i32` as `str::parse::<i32>` does.
pub fn parse_i32(s: &str) -> (r: Option<i32>)
    ensures
        r == parsed_i32(s@),
{
    let n: usize = s.unicode_len();
    let mut start: usize = 0;
    let mut negative = false;
    if n > 0 {
        let c = s.get_char(0);
        if c == '-' {
            negative = true;
            start = 1;
        } else if c == '+' {
            start = 1;
        }
    }
    let ghost digits = s@.subrange(start as int, n as int);
    proof {
        if start == 1 {
            assert(digits =~= s@.drop_first());
        } else {
            assert(digits =~= s@);
        }
    }
    if start == n {
        return None;
    }
    // The value of the digits read so far, capped at `cap`.
    let cap: i64 = 2_147_483_649;
    let mut acc: i64 = 0;
    let mut i: usize = start;
    assert(digits.take(0) =~= Seq::<char>::empty());
    while i < n
        invariant
            n == s@.len(),
            start <= i <= n,
            start < n,
            digits == s@.subrange(start as int, n as int),
            start == (if s@.len() > 0 && (s@[0] == '-' || s@[0] == '+') {
                1int
            } else {
                0int
            }),
            negative == (s@.len() > 0 && s@[0] == '-'),
            digits == unsigned_part(s@),
            acc >= 0,
            cap == 2_147_483_649,
            forall|k: int| 0 <= k < i - start ==> is_digit(#[trigger] digits[k]),
            acc == if decimal_value(digits.take(i - start)) < cap {
                decimal_value(digits.take(i - start))
            } else {
                cap as int
            },
        decreases n - i,
    {
        let c = s.get_char(i);
        if !('0' <= c && c <= '9') {
            assert(digits[i - start] == c);
            assert(!is_digit(digits[i - start]));
            assert(!all_digits(digits));
            return None;
        }
        let d: i64 = (c as u32 - '0' as u32) as i64;
        proof {
            let k = i - start;
            assert(digits[k] == c);
            assert(digits.take(k + 1).drop_last() =~= digits.take(k));
            assert(digits.take(k + 1).last() == c);
            lemma_decimal_value_nonneg(digits.take(k));
            assert forall|j: int| 0 <= j < k implies is_digit(#[trigger] digits.take(k)[j]) by {
                assert(digits.take(k)[j] == digits[j]);
            }
            lemma_decimal_value_nonneg(digits.take(k));
            let v = decimal_value(digits.take(k));
            assert(v >= cap ==> v * 10 + d >= cap) by (nonlinear_arith)
                requires
                    v >= 0,
                    d >= 0,
            ;
        }
        if acc < cap {
            let next: i64 = acc * 10 + d;
            acc = if next < cap {
                next
            } else {
                cap
            };
        }
        i = i + 1;
    }
    assert(digits.take(n - start) =~= digits);
    if negative {
        if acc > 2_147_483_648 {
            None
        } else {
            Some((0 - acc) as i32)
        }
    } else {
        if acc > 2_147_483_647 {
            None
        } else {
            Some(acc as i32)
        }
    }
}

} // verus!
