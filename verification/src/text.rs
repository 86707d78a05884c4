//! Character-level text utilities shared by the moderation and formatting code.

use vstd::prelude::*;

verus! {

/// Number of bytes that the UTF-8 encoding of `s` occupies.
pub open spec fn utf8_len(s: Seq<char>) -> nat {
    vstd::utf8::encode_utf8(s).len()
}

/// Appends one character to a string.
///
/// Calls `String::push`; the contract claims that the string's characters
/// afterwards are the old ones followed by `c`.
#[verifier::external_body]
fn push_char(s: &mut String, c: char)
    ensures
        final(s)@ == old(s)@.push(c),
{
    s.push(c);
}

/// The characters of `s`, in order.
pub fn chars_of(s: &str) -> (v: Vec<char>)
    ensures
        v@ == s@,
{
    let mut v: Vec<char> = Vec::new();
    for c in it: s.chars()
        invariant
            v@ == it.seq().take(it.index() as int),
    {
        v.push(c);
    }
    v
}

/// Builds a string from its characters.
pub fn string_of(v: &Vec<char>) -> (s: String)
    ensures
        s@ == v@,
{
    let mut s = String::new();
    let mut i: usize = 0;
    while i < v.len()
        invariant
            i <= v.len(),
            s@ == v@.take(i as int),
        decreases v.len() - i,
    {
        push_char(&mut s, v[i]);
        assert(v@.take(i as int).push(v@[i as int]) =~= v@.take(i + 1));
        i = i + 1;
    }
    assert(v@.take(v.len() as int) =~= v@);
    s
}

/// Byte length of a string.
pub fn byte_len(s: &str) -> (n: usize)
    ensures
        n == utf8_len(s@),
{
    let bytes = s.as_bytes();
    bytes.len()
}

} // verus!

verus! {

/// What `str::to_lowercase` returns for the characters `s`.
pub uninterp spec fn lowercase_of(s: Seq<char>) -> Seq<char>;

/// Whether a character carries the Unicode `White_Space` property, which
/// `char::is_whitespace` tests: the control characters U+0009 to U+000D,
/// the space, U+0085, U+00A0, U+1680, U+2000 to U+200A, U+2028, U+2029,
/// U+202F, U+205F and U+3000.
pub open spec fn unicode_whitespace(c: char) -> bool {
    let n = c as u32;
    ||| 0x09 <= n <= 0x0D
    ||| n == 0x20
    ||| n == 0x85
    ||| n == 0xA0
    ||| n == 0x1680
    ||| 0x2000 <= n <= 0x200A
    ||| n == 0x2028
    ||| n == 0x2029
    ||| n == 0x202F
    ||| n == 0x205F
    ||| n == 0x3000
}

/// Lower-cases a string.
///
/// Calls `str::to_lowercase`; the contract only names the result, as the
/// Unicode case tables decide it.
#[verifier::external_body]
pub(crate) fn to_lowercase(s: &str) -> (r: String)
    ensures
        r@ == lowercase_of(s@),
{
    s.to_lowercase()
}

/// Tells whether `c` is white space.
fn is_whitespace(c: char) -> (r: bool)
    ensures
        r == unicode_whitespace(c),
{
    let n = c as u32;
    (0x09 <= n && n <= 0x0D) || n == 0x20 || n == 0x85 || n == 0xA0 || n == 0x1680 || (0x2000 <= n && n
        <= 0x200A) || n == 0x2028 || n == 0x2029 || n == 0x202F || n == 0x205F || n == 0x3000
}

/// `s` with every plain space removed.
pub open spec fn without_spaces(s: Seq<char>) -> Seq<char>
    decreases s.len(),
{
    if s.len() == 0 {
        s
    } else if s.last() == ' ' {
        without_spaces(s.drop_last())
    } else {
        without_spaces(s.drop_last()).push(s.last())
    }
}

/// Removes every plain space from `s`.
pub fn remove_spaces(s: &Vec<char>) -> (r: Vec<char>)
    ensures
        r@ == without_spaces(s@),
{
    let mut r: Vec<char> = Vec::new();
    let mut i: usize = 0;
    while i < s.len()
        invariant
            i <= s.len(),
            r@ == without_spaces(s@.take(i as int)),
        decreases s.len() - i,
    {
        assert(s@.take(i + 1).drop_last() =~= s@.take(i as int));
        if s[i] != ' ' {
            r.push(s[i]);
        }
        i = i + 1;
    }
    assert(s@.take(s.len() as int) =~= s@);
    r
}

/// The words of `s`, continuing a word `cur` that was already started:
/// maximal runs of characters without white space.
pub open spec fn words_from(s: Seq<char>, cur: Seq<char>) -> Seq<Seq<char>>
    decreases s.len(),
{
    let flushed: Seq<Seq<char>> = if cur.len() > 0 {
        seq![cur]
    } else {
        seq![]
    };
    if s.len() == 0 {
        flushed
    } else if unicode_whitespace(s[0]) {
        flushed + words_from(s.drop_first(), seq![])
    } else {
        words_from(s.drop_first(), cur.push(s[0]))
    }
}

/// The words of `s` in order, as `str::split_whitespace` yields them.
pub open spec fn words(s: Seq<char>) -> Seq<Seq<char>> {
    words_from(s, seq![])
}

/// Splits `s` into its white-space separated words.
pub fn split_words(s: &Vec<char>) -> (r: Vec<Vec<char>>)
    ensures
        r.deep_view() == words(s@),
{
    let mut r: Vec<Vec<char>> = Vec::new();
    let mut cur: Vec<char> = Vec::new();
    let mut i: usize = 0;
    assert(s@.skip(0) =~= s@);
    while i < s.len()
        invariant
            i <= s.len(),
            r.deep_view() + words_from(s@.skip(i as int), cur@) == words(s@),
        decreases s.len() - i,
    {
        let ghost rest = s@.skip(i as int);
        assert(rest.drop_first() =~= s@.skip(i + 1));
        assert(rest[0] == s@[i as int]);
        if is_whitespace(s[i]) {
            if cur.len() > 0 {
                let ghost old_r = r.deep_view();
                let ghost wv = cur@;
                assert(cur.deep_view() =~= wv);
                let word = cur;
                r.push(word);
                assert(r.deep_view() =~= old_r + seq![wv]);
                cur = Vec::new();
                assert(old_r + (seq![wv] + words_from(s@.skip(i + 1), seq![]))
                    =~= old_r + seq![wv] + words_from(s@.skip(i + 1), seq![]));
            } else {
                assert(cur@ =~= seq![]);
                assert(seq![] + words_from(s@.skip(i + 1), seq![]) =~= words_from(s@.skip(i + 1), seq![]));
            }
        } else {
            cur.push(s[i]);
        }
        i = i + 1;
    }
    assert(s@.skip(i as int) =~= seq![]);
    if cur.len() > 0 {
        let ghost old_r = r.deep_view();
        let ghost wv = cur@;
        assert(cur.deep_view() =~= wv);
        assert(words_from(s@.skip(i as int), cur@) =~= seq![wv]);
        r.push(cur);
        assert(r.deep_view() =~= old_r + seq![wv]);
    } else {
        assert(r.deep_view() =~= r.deep_view() + words_from(s@.skip(i as int), cur@));
    }
    r
}

/// The words `ws` joined with the separator `sep` between neighbours.
pub open spec fn joined(ws: Seq<Seq<char>>, sep: Seq<char>) -> Seq<char>
    decreases ws.len(),
{
    if ws.len() == 0 {
        seq![]
    } else if ws.len() == 1 {
        ws[0]
    } else {
        joined(ws.drop_last(), sep) + sep + ws.last()
    }
}

/// Joins the words `ws` with single spaces, as `join(" ")` does.
pub fn join_with_spaces(ws: &Vec<Vec<char>>) -> (r: Vec<char>)
    ensures
        r@ == joined(ws.deep_view(), seq![' ']),
{
    let mut r: Vec<char> = Vec::new();
    let mut i: usize = 0;
    while i < ws.len()
        invariant
            i <= ws.len(),
            r@ == joined(ws.deep_view().take(i as int), seq![' ']),
        decreases ws.len() - i,
    {
        let ghost before = r@;
        assert(ws.deep_view().take(i + 1).drop_last() =~= ws.deep_view().take(i as int));
        if i > 0 {
            r.push(' ');
        }
        let w = &ws[i];
        let mut k: usize = 0;
        let ghost mid = r@;
        while k < w.len()
            invariant
                k <= w.len(),
                r@ == mid + w@.take(k as int),
            decreases w.len() - k,
        {
            r.push(w[k]);
            assert(mid + w@.take(k + 1) =~= (mid + w@.take(k as int)).push(w@[k as int]));
            k = k + 1;
        }
        assert(w@.take(w.len() as int) =~= w@);
        assert(ws.deep_view()[i as int] == w@);
        if i == 0 {
            assert(r@ =~= ws.deep_view().take(1)[0]);
        } else {
            assert(mid =~= before + seq![' ']);
        }
        i = i + 1;
    }
    assert(ws.deep_view().take(ws.len() as int) =~= ws.deep_view());
    r
}

/// `s` with every non-overlapping occurrence of `from`, found from left to
/// right, replaced by `to`.
pub open spec fn replaced(s: Seq<char>, from: Seq<char>, to: Seq<char>) -> Seq<char>
    decreases s.len(),
{
    if s.len() == 0 {
        s
    } else if 0 < from.len() <= s.len() && s.take(from.len() as int) == from {
        to + replaced(s.skip(from.len() as int), from, to)
    } else {
        seq![s[0]] + replaced(s.drop_first(), from, to)
    }
}

/// Whether `from` occurs in `s` at position `i`.
fn occurs_at(s: &Vec<char>, i: usize, from: &Vec<char>) -> (b: bool)
    requires
        i <= s.len(),
    ensures
        b == (from.len() <= s.len() - i && s@.skip(i as int).take(from.len() as int) == from@),
{
    if from.len() > s.len() - i {
        return false;
    }
    let mut k: usize = 0;
    while k < from.len()
        invariant
            from.len() <= s.len() - i,
            k <= from.len(),
            forall|t: int| 0 <= t < k ==> s@[i + t] == from@[t],
        decreases from.len() - k,
    {
        if s[i + k] != from[k] {
            assert(s@.skip(i as int).take(from.len() as int)[k as int] != from@[k as int]);
            return false;
        }
        k = k + 1;
    }
    assert(s@.skip(i as int).take(from.len() as int) =~= from@);
    true
}

/// Replaces every non-overlapping occurrence of `from` in `s` by `to`,
/// scanning from left to right, as `str::replace` does.
pub fn replace_all(s: &Vec<char>, from: &Vec<char>, to: &Vec<char>) -> (r: Vec<char>)
    requires
        from.len() > 0,
    ensures
        r@ == replaced(s@, from@, to@),
{
    let mut r: Vec<char> = Vec::new();
    let mut i: usize = 0;
    assert(s@.skip(0) =~= s@);
    while i < s.len()
        invariant
            i <= s.len(),
            from.len() > 0,
            r@ + replaced(s@.skip(i as int), from@, to@) == replaced(s@, from@, to@),
        decreases s.len() - i,
    {
        let ghost rest = s@.skip(i as int);
        if occurs_at(s, i, from) {
            let ghost before = r@;
            let mut k: usize = 0;
            while k < to.len()
                invariant
                    k <= to.len(),
                    r@ == before + to@.take(k as int),
                decreases to.len() - k,
            {
                r.push(to[k]);
                assert(before + to@.take(k + 1) =~= (before + to@.take(k as int)).push(to@[k as int]));
                k = k + 1;
            }
            assert(to@.take(to.len() as int) =~= to@);
            assert(rest.skip(from.len() as int) =~= s@.skip(i + from.len()));
            assert(before + (to@ + replaced(s@.skip(i + from.len()), from@, to@))
                =~= r@ + replaced(s@.skip(i + from.len()), from@, to@));
            i = i + from.len();
        } else {
            let ghost before = r@;
            r.push(s[i]);
            assert(rest.drop_first() =~= s@.skip(i + 1));
            assert(rest[0] == s@[i as int]);
            assert(before + (seq![rest[0]] + replaced(s@.skip(i + 1), from@, to@))
                =~= r@ + replaced(s@.skip(i + 1), from@, to@));
            i = i + 1;
        }
    }
    assert(s@.skip(i as int) =~= seq![]);
    assert(r@ + seq![] =~= r@);
    r
}

} // verus!

verus! {

/// The decimal digit `d`.
pub open spec fn digit_char(d: nat) -> char {
    if d == 0 {
        '0'
    } else if d == 1 {
        '1'
    } else if d == 2 {
        '2'
    } else if d == 3 {
        '3'
    } else if d == 4 {
        '4'
    } else if d == 5 {
        '5'
    } else if d == 6 {
        '6'
    } else if d == 7 {
        '7'
    } else if d == 8 {
        '8'
    } else {
        '9'
    }
}

/// The decimal representation of `n`, without sign or leading zeros.
pub open spec fn decimal(n: nat) -> Seq<char>
    decreases n,
{
    if n < 10 {
        seq![digit_char(n)]
    } else {
        decimal(n / 10).push(digit_char(n % 10))
    }
}

fn digit(d: u64) -> (c: char)
    requires
        d < 10,
    ensures
        c == digit_char(d as nat),
{
    if d == 0 {
        '0'
    } else if d == 1 {
        '1'
    } else if d == 2 {
        '2'
    } else if d == 3 {
        '3'
    } else if d == 4 {
        '4'
    } else if d == 5 {
        '5'
    } else if d == 6 {
        '6'
    } else if d == 7 {
        '7'
    } else if d == 8 {
        '8'
    } else {
        '9'
    }
}

/// The decimal digits of `n`.
pub fn decimal_chars(n: u64) -> (r: Vec<char>)
    ensures
        r@ == decimal(n as nat),
    decreases n,
{
    if n < 10 {
        vec![digit(n)]
    } else {
        let mut r = decimal_chars(n / 10);
        r.push(digit(n % 10));
        r
    }
}

/// The decimal representation of `n`, as `to_string` writes it.
pub fn decimal_string(n: u64) -> (r: String)
    ensures
        r@ == decimal(n as nat),
{
    string_of(&decimal_chars(n))
}

} // verus!

verus! {

proof fn lemma_words_from_are_clean(s: Seq<char>, cur: Seq<char>)
    requires
        forall|j: int| 0 <= j < cur.len() ==> !unicode_whitespace(#[trigger] cur[j]),
    ensures
        forall|i: int|
            0 <= i < words_from(s, cur).len() ==> (#[trigger] words_from(s, cur)[i]).len() > 0 && forall|j: int|
                0 <= j < words_from(s, cur)[i].len() ==> !unicode_whitespace(#[trigger] words_from(s, cur)[i][j]),
    decreases s.len(),
{
    let flushed: Seq<Seq<char>> = if cur.len() > 0 {
        seq![cur]
    } else {
        seq![]
    };
    if s.len() == 0 {
        assert(words_from(s, cur) == flushed);
        assert forall|i: int| 0 <= i < words_from(s, cur).len() implies (#[trigger] words_from(s, cur)[i]).len() > 0
            && forall|j: int| 0 <= j < words_from(s, cur)[i].len() ==> !unicode_whitespace(#[trigger] words_from(s, cur)[i][j]) by {
            assert(words_from(s, cur)[i] == cur);
        }
    } else {
        if unicode_whitespace(s[0]) {
            let rest = words_from(s.drop_first(), seq![]);
            lemma_words_from_are_clean(s.drop_first(), seq![]);
            assert(words_from(s, cur) == flushed + rest);
            assert forall|i: int| 0 <= i < words_from(s, cur).len() implies (#[trigger] words_from(s, cur)[i]).len() > 0
                && forall|j: int| 0 <= j < words_from(s, cur)[i].len() ==> !unicode_whitespace(#[trigger] words_from(s, cur)[i][j]) by {
                if i < flushed.len() {
                    assert(words_from(s, cur)[i] == cur);
                } else {
                    assert(words_from(s, cur)[i] == rest[i - flushed.len()]);
                }
            }
        } else {
            let next = cur.push(s[0]);
            assert forall|j: int| 0 <= j < next.len() implies !unicode_whitespace(#[trigger] next[j]) by {
                if j < cur.len() {
                    assert(next[j] == cur[j]);
                }
            }
            lemma_words_from_are_clean(s.drop_first(), next);
            assert(words_from(s, cur) == words_from(s.drop_first(), next));
        }
    }
}

/// The words of a text are never empty and hold no white space.
pub proof fn law_words_are_nonempty_without_white_space(s: Seq<char>)
    ensures
        forall|i: int|
            0 <= i < words(s).len() ==> (#[trigger] words(s)[i]).len() > 0 && forall|j: int|
                0 <= j < words(s)[i].len() ==> !unicode_whitespace(#[trigger] words(s)[i][j]),
{
    lemma_words_from_are_clean(s, seq![]);
}

/// Removing spaces leaves no space, keeps every other character in order,
/// and changes nothing in a text without spaces.
pub proof fn law_without_spaces_removes_only_spaces(s: Seq<char>)
    ensures
        forall|i: int| 0 <= i < without_spaces(s).len() ==> #[trigger] without_spaces(s)[i] != ' ',
        without_spaces(s).len() <= s.len(),
        (forall|i: int| 0 <= i < s.len() ==> #[trigger] s[i] != ' ') ==> without_spaces(s) == s,
    decreases s.len(),
{
    if s.len() > 0 {
        law_without_spaces_removes_only_spaces(s.drop_last());
        if forall|i: int| 0 <= i < s.len() ==> #[trigger] s[i] != ' ' {
            assert forall|i: int| 0 <= i < s.drop_last().len() implies #[trigger] s.drop_last()[i] != ' ' by {
                assert(s.drop_last()[i] == s[i]);
            }
            assert(s[s.len() - 1] != ' ');
            assert(s =~= s.drop_last().push(s.last()));
        }
    }
}

} // verus!

verus! {

/// The number that a sequence of decimal digits reads as.
pub open spec fn digits_value(s: Seq<char>) -> int
    decreases s.len(),
{
    if s.len() == 0 {
        0
    } else {
        digits_value(s.drop_last()) * 10 + (s.last() as int - '0' as int)
    }
}

proof fn lemma_digit_char_value(d: nat)
    requires
        d < 10,
    ensures
        digit_char(d) as int - '0' as int == d,
        '0' <= digit_char(d) <= '9',
{
    assert('1' as int == '0' as int + 1);
    assert('2' as int == '0' as int + 2);
    assert('3' as int == '0' as int + 3);
    assert('4' as int == '0' as int + 4);
    assert('5' as int == '0' as int + 5);
    assert('6' as int == '0' as int + 6);
    assert('7' as int == '0' as int + 7);
    assert('8' as int == '0' as int + 8);
    assert('9' as int == '0' as int + 9);
}

/// The decimal representation of a number is made of digits, reads back
/// as that number, and has no leading zero unless it is zero itself.
pub proof fn law_decimal_reads_back(n: nat)
    ensures
        decimal(n).len() > 0,
        forall|i: int| 0 <= i < decimal(n).len() ==> '0' <= #[trigger] decimal(n)[i] <= '9',
        digits_value(decimal(n)) == n,
        decimal(n)[0] == '0' ==> n == 0,
    decreases n,
{
    if n >= 10 {
        law_decimal_reads_back(n / 10);
        let d = decimal(n / 10);
        assert(decimal(n) == d.push(digit_char(n % 10)));
        assert(decimal(n).drop_last() =~= d);
        assert forall|i: int| 0 <= i < decimal(n).len() implies '0' <= #[trigger] decimal(n)[i] <= '9' by {
            if i < d.len() {
                assert(decimal(n)[i] == d[i]);
            }
        }
        assert(decimal(n)[0] == d[0]);
        lemma_digit_char_value(n % 10);
        assert(decimal(n).last() == digit_char(n % 10));
        assert(digits_value(decimal(n)) == digits_value(d) * 10 + (digit_char(n % 10) as int - '0' as int));
        assert((n / 10) * 10 + n % 10 == n);
    } else {
        lemma_digit_char_value(n);
        assert(decimal(n).drop_last() =~= Seq::<char>::empty());
        assert(digits_value(decimal(n).drop_last()) == 0);
        assert(decimal(n).last() == digit_char(n));
    }
}

} // verus!
