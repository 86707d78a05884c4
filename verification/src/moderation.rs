//! Moderation of advertising texts: detection and masking of abusive words
//! by a byte-length tolerant Levenshtein comparison.

use vstd::prelude::*;

use crate::error::ServiceError;
use crate::text;
use crate::text::{byte_len, chars_of, join_with_spaces, remove_spaces, replace_all, split_words, string_of, to_lowercase};

verus! {

/// The smaller of two naturals.
pub open spec fn min_nat(x: nat, y: nat) -> nat {
    if x <= y {
        x
    } else {
        y
    }
}

/// Classical edit distance (insertions, deletions and substitutions, each of
/// cost one) between two sequences.
pub open spec fn edit_distance<T>(a: Seq<T>, b: Seq<T>) -> nat
    decreases a.len() + b.len(),
{
    if a.len() == 0 {
        b.len()
    } else if b.len() == 0 {
        a.len()
    } else {
        let subst: nat = if a.last() == b.last() {
            0
        } else {
            1
        };
        min_nat(
            min_nat(
                edit_distance(a.drop_last(), b) + 1,
                edit_distance(a, b.drop_last()) + 1,
            ),
            edit_distance(a.drop_last(), b.drop_last()) + subst,
        )
    }
}

/// The characters of `s` as `n` slots: slot `k` holds the `k`-th character,
/// or nothing once the characters have run out.
pub open spec fn slots(s: Seq<char>, n: nat) -> Seq<Option<char>> {
    Seq::new(n, |k: int| if k < s.len() { Some(s[k]) } else { None })
}

/// The distance that the moderation compares with a tolerance: the edit
/// distance between the two texts, each laid out over as many slots as its
/// UTF-8 encoding has bytes.
pub open spec fn levenshtein(a: Seq<char>, b: Seq<char>) -> nat {
    edit_distance(slots(a, text::utf8_len(a)), slots(b, text::utf8_len(b)))
}

/// The distance never exceeds the longer of the two lengths.
pub proof fn lemma_edit_distance_bound<T>(a: Seq<T>, b: Seq<T>)
    ensures
        edit_distance(a, b) <= if a.len() >= b.len() { a.len() } else { b.len() },
    decreases a.len() + b.len(),
{
    if a.len() > 0 && b.len() > 0 {
        lemma_edit_distance_bound(a.drop_last(), b.drop_last());
    }
}

/// One step of the distance on prefixes, written as the dynamic programme
/// computes it.
proof fn lemma_edit_distance_step<T>(a: Seq<T>, b: Seq<T>, j: int, i: int)
    requires
        1 <= j <= a.len(),
        1 <= i <= b.len(),
    ensures
        edit_distance(a.take(j), b.take(i)) == min_nat(
            min_nat(
                edit_distance(a.take(j), b.take(i - 1)) + 1,
                edit_distance(a.take(j - 1), b.take(i)) + 1,
            ),
            edit_distance(a.take(j - 1), b.take(i - 1)) + if a[j - 1] == b[i - 1] {
                0nat
            } else {
                1nat
            },
        ),
{
    assert(a.take(j).drop_last() =~= a.take(j - 1));
    assert(b.take(i).drop_last() =~= b.take(i - 1));
    assert(a.take(j).last() == a[j - 1]);
    assert(b.take(i).last() == b[i - 1]);
}

/// Every element is at distance zero from itself.
pub proof fn lemma_edit_distance_self<T>(a: Seq<T>)
    ensures
        edit_distance(a, a) == 0,
    decreases a.len(),
{
    if a.len() > 0 {
        lemma_edit_distance_self(a.drop_last());
    }
}

/// The distance does not depend on the order of its arguments.
pub proof fn lemma_edit_distance_symmetric<T>(a: Seq<T>, b: Seq<T>)
    ensures
        edit_distance(a, b) == edit_distance(b, a),
    decreases a.len() + b.len(),
{
    if a.len() > 0 && b.len() > 0 {
        lemma_edit_distance_symmetric(a.drop_last(), b);
        lemma_edit_distance_symmetric(a, b.drop_last());
        lemma_edit_distance_symmetric(a.drop_last(), b.drop_last());
    }
}

/// Lays `s` out over `n` slots.
fn slots_of(s: &Vec<char>, n: usize) -> (r: Vec<Option<char>>)
    ensures
        r@ == slots(s@, n as nat),
{
    let mut r: Vec<Option<char>> = Vec::new();
    let mut k: usize = 0;
    while k < n
        invariant
            k <= n,
            r@ =~= slots(s@, n as nat).take(k as int),
        decreases n - k,
    {
        if k < s.len() {
            r.push(Some(s[k]));
        } else {
            r.push(None);
        }
        k = k + 1;
    }
    r
}

/// Whether two slots hold the same thing.
fn same_slot(x: Option<char>, y: Option<char>) -> (b: bool)
    ensures
        b == (x == y),
{
    match (x, y) {
        (Some(p), Some(q)) => p == q,
        (None, None) => true,
        _ => false,
    }
}

/// Edit distance between two slot sequences, by the row-by-row dynamic
/// programme.
fn slot_distance(a: &Vec<Option<char>>, b: &Vec<Option<char>>) -> (d: usize)
    ensures
        d == edit_distance(a@, b@),
{
    let n = a.len();
    let m = b.len();
    let mut cur: Vec<usize> = Vec::new();
    cur.push(0);
    let mut j: usize = 0;
    while j < n
        invariant
            n == a.len(),
            j <= n,
            cur.len() == j + 1,
            forall|t: int| 0 <= t <= j ==> #[trigger] cur@[t] == edit_distance(a@.take(t), b@.take(0)),
        decreases n - j,
    {
        cur.push(j + 1);
        assert(b@.take(0) =~= seq![]);
        j = j + 1;
    }
    let mut i: usize = 0;
    while i < m
        invariant
            n == a.len(),
            m == b.len(),
            0 <= i <= m,
            cur.len() == n + 1,
            forall|t: int| 0 <= t <= n ==> #[trigger] cur@[t] == edit_distance(a@.take(t), b@.take(i as int)),
        decreases m - i,
    {
        let prev = cur.clone();
        assert(prev@ == cur@);
        assert(a@.take(0) =~= seq![]);
        let row = i + 1;
        cur.set(0, row);
        let mut j: usize = 1;
        while j <= n
            invariant
                n == a.len(),
                m == b.len(),
                0 <= i < m,
                row == i + 1,
                1 <= j <= n + 1,
                cur.len() == n + 1,
                prev.len() == n + 1,
                forall|t: int| 0 <= t <= n ==> #[trigger] prev@[t] == edit_distance(a@.take(t), b@.take(i as int)),
                forall|t: int| 0 <= t < j ==> #[trigger] cur@[t] == edit_distance(a@.take(t), b@.take(row as int)),
            decreases n + 1 - j,
        {
            proof {
                lemma_edit_distance_step(a@, b@, j as int, row as int);
                lemma_edit_distance_bound(a@.take(j as int), b@.take(row as int));
                lemma_edit_distance_bound(a@.take(j as int), b@.take(i as int));
            }
            let via_drop = if prev[j] <= cur[j - 1] { prev[j] } else { cur[j - 1] };
            let diagonal = prev[j - 1];
            let differ = !same_slot(a[j - 1], b[i]);
            let best = if via_drop < diagonal {
                via_drop + 1
            } else if differ {
                diagonal + 1
            } else {
                diagonal
            };
            cur.set(j, best);
            j = j + 1;
        }
        i = i + 1;
    }
    assert(a@.take(n as int) =~= a@);
    assert(b@.take(m as int) =~= b@);
    cur[n]
}

/// Levenshtein distance between two texts, each counted over as many
/// positions as it has UTF-8 bytes; positions past the last character count
/// as equal blanks.
pub fn levenshtein_distance(a: &str, b: &str) -> (d: usize)
    ensures
        d == levenshtein(a@, b@),
{
    let n = byte_len(a);
    let m = byte_len(b);
    let a_slots = slots_of(&chars_of(a), n);
    let b_slots = slots_of(&chars_of(b), m);
    slot_distance(&a_slots, &b_slots)
}

} // verus!

verus! {

/// Number of character substitutions applied before moderation.
pub open spec fn substitution_count() -> nat {
    87
}

/// The `k`-th substitution applied before moderation: occurrences of the
/// first component are replaced by the Cyrillic letter in the second one.
/// Look-alike Latin letters, digits and symbol groups are folded onto the
/// Cyrillic letter they imitate, letter by letter in the byte order of the
/// Cyrillic letters, and for each letter in the order its look-alikes are
/// listed.
pub open spec fn substitution(k: int) -> (Seq<char>, char) {
    if k == 0 {
        (seq!['а'], 'а')
    } else if k == 1 {
        (seq!['a'], 'а')
    } else if k == 2 {
        (seq!['@'], 'а')
    } else if k == 3 {
        (seq!['б'], 'б')
    } else if k == 4 {
        (seq!['6'], 'б')
    } else if k == 5 {
        (seq!['b'], 'б')
    } else if k == 6 {
        (seq!['в'], 'в')
    } else if k == 7 {
        (seq!['b'], 'в')
    } else if k == 8 {
        (seq!['v'], 'в')
    } else if k == 9 {
        (seq!['г'], 'г')
    } else if k == 10 {
        (seq!['r'], 'г')
    } else if k == 11 {
        (seq!['g'], 'г')
    } else if k == 12 {
        (seq!['д'], 'д')
    } else if k == 13 {
        (seq!['d'], 'д')
    } else if k == 14 {
        (seq!['е'], 'е')
    } else if k == 15 {
        (seq!['e'], 'е')
    } else if k == 16 {
        (seq!['ж'], 'ж')
    } else if k == 17 {
        (seq!['z', 'h'], 'ж')
    } else if k == 18 {
        (seq!['*'], 'ж')
    } else if k == 19 {
        (seq!['з'], 'з')
    } else if k == 20 {
        (seq!['3'], 'з')
    } else if k == 21 {
        (seq!['z'], 'з')
    } else if k == 22 {
        (seq!['и'], 'и')
    } else if k == 23 {
        (seq!['u'], 'и')
    } else if k == 24 {
        (seq!['i'], 'и')
    } else if k == 25 {
        (seq!['й'], 'й')
    } else if k == 26 {
        (seq!['u'], 'й')
    } else if k == 27 {
        (seq!['i'], 'й')
    } else if k == 28 {
        (seq!['к'], 'к')
    } else if k == 29 {
        (seq!['k'], 'к')
    } else if k == 30 {
        (seq!['i', '{'], 'к')
    } else if k == 31 {
        (seq!['|', '{'], 'к')
    } else if k == 32 {
        (seq!['л'], 'л')
    } else if k == 33 {
        (seq!['l'], 'л')
    } else if k == 34 {
        (seq!['j', 'i'], 'л')
    } else if k == 35 {
        (seq!['м'], 'м')
    } else if k == 36 {
        (seq!['m'], 'м')
    } else if k == 37 {
        (seq!['н'], 'н')
    } else if k == 38 {
        (seq!['h'], 'н')
    } else if k == 39 {
        (seq!['n'], 'н')
    } else if k == 40 {
        (seq!['о'], 'о')
    } else if k == 41 {
        (seq!['o'], 'о')
    } else if k == 42 {
        (seq!['0'], 'о')
    } else if k == 43 {
        (seq!['п'], 'п')
    } else if k == 44 {
        (seq!['n'], 'п')
    } else if k == 45 {
        (seq!['p'], 'п')
    } else if k == 46 {
        (seq!['р'], 'р')
    } else if k == 47 {
        (seq!['r'], 'р')
    } else if k == 48 {
        (seq!['p'], 'р')
    } else if k == 49 {
        (seq!['с'], 'с')
    } else if k == 50 {
        (seq!['c'], 'с')
    } else if k == 51 {
        (seq!['s'], 'с')
    } else if k == 52 {
        (seq!['т'], 'т')
    } else if k == 53 {
        (seq!['m'], 'т')
    } else if k == 54 {
        (seq!['t'], 'т')
    } else if k == 55 {
        (seq!['у'], 'у')
    } else if k == 56 {
        (seq!['y'], 'у')
    } else if k == 57 {
        (seq!['u'], 'у')
    } else if k == 58 {
        (seq!['ф'], 'ф')
    } else if k == 59 {
        (seq!['f'], 'ф')
    } else if k == 60 {
        (seq!['х'], 'х')
    } else if k == 61 {
        (seq!['x'], 'х')
    } else if k == 62 {
        (seq!['h'], 'х')
    } else if k == 63 {
        (seq!['}', '{'], 'х')
    } else if k == 64 {
        (seq![']', '['], 'х')
    } else if k == 65 {
        (seq!['ц'], 'ц')
    } else if k == 66 {
        (seq!['c'], 'ц')
    } else if k == 67 {
        (seq!['u', ','], 'ц')
    } else if k == 68 {
        (seq!['ч'], 'ч')
    } else if k == 69 {
        (seq!['c', 'h'], 'ч')
    } else if k == 70 {
        (seq!['ш'], 'ш')
    } else if k == 71 {
        (seq!['s', 'h'], 'ш')
    } else if k == 72 {
        (seq!['щ'], 'щ')
    } else if k == 73 {
        (seq!['s', 'c', 'h'], 'щ')
    } else if k == 74 {
        (seq!['ъ'], 'ъ')
    } else if k == 75 {
        (seq!['ы'], 'ы')
    } else if k == 76 {
        (seq!['b', 'i'], 'ы')
    } else if k == 77 {
        (seq!['ь'], 'ь')
    } else if k == 78 {
        (seq!['b'], 'ь')
    } else if k == 79 {
        (seq!['э'], 'э')
    } else if k == 80 {
        (seq!['e'], 'э')
    } else if k == 81 {
        (seq!['ю'], 'ю')
    } else if k == 82 {
        (seq!['i', 'o'], 'ю')
    } else if k == 83 {
        (seq!['я'], 'я')
    } else if k == 84 {
        (seq!['y', 'a'], 'я')
    } else if k == 85 {
        (seq!['ё'], 'ё')
    } else {
        (seq!['e'], 'ё')
    }
}

/// `s` after the first `k` substitutions.
pub open spec fn substituted(s: Seq<char>, k: nat) -> Seq<char>
    decreases k,
{
    if k == 0 {
        s
    } else {
        text::replaced(substituted(s, (k - 1) as nat), substitution(k - 1).0, seq![substitution(k - 1).1])
    }
}

/// `s` after all substitutions.
pub open spec fn filtered_phrase(s: Seq<char>) -> Seq<char> {
    substituted(s, substitution_count())
}

/// The `k`-th substitution, as data.
fn substitution_rule(k: usize) -> (r: (Vec<char>, char))
    requires
        k < substitution_count(),
    ensures
        r.0@ == substitution(k as int).0,
        r.1 == substitution(k as int).1,
        r.0@.len() > 0,
{
    if k == 0 {
        (vec!['а'], 'а')
    } else if k == 1 {
        (vec!['a'], 'а')
    } else if k == 2 {
        (vec!['@'], 'а')
    } else if k == 3 {
        (vec!['б'], 'б')
    } else if k == 4 {
        (vec!['6'], 'б')
    } else if k == 5 {
        (vec!['b'], 'б')
    } else if k == 6 {
        (vec!['в'], 'в')
    } else if k == 7 {
        (vec!['b'], 'в')
    } else if k == 8 {
        (vec!['v'], 'в')
    } else if k == 9 {
        (vec!['г'], 'г')
    } else if k == 10 {
        (vec!['r'], 'г')
    } else if k == 11 {
        (vec!['g'], 'г')
    } else if k == 12 {
        (vec!['д'], 'д')
    } else if k == 13 {
        (vec!['d'], 'д')
    } else if k == 14 {
        (vec!['е'], 'е')
    } else if k == 15 {
        (vec!['e'], 'е')
    } else if k == 16 {
        (vec!['ж'], 'ж')
    } else if k == 17 {
        (vec!['z', 'h'], 'ж')
    } else if k == 18 {
        (vec!['*'], 'ж')
    } else if k == 19 {
        (vec!['з'], 'з')
    } else if k == 20 {
        (vec!['3'], 'з')
    } else if k == 21 {
        (vec!['z'], 'з')
    } else if k == 22 {
        (vec!['и'], 'и')
    } else if k == 23 {
        (vec!['u'], 'и')
    } else if k == 24 {
        (vec!['i'], 'и')
    } else if k == 25 {
        (vec!['й'], 'й')
    } else if k == 26 {
        (vec!['u'], 'й')
    } else if k == 27 {
        (vec!['i'], 'й')
    } else if k == 28 {
        (vec!['к'], 'к')
    } else if k == 29 {
        (vec!['k'], 'к')
    } else if k == 30 {
        (vec!['i', '{'], 'к')
    } else if k == 31 {
        (vec!['|', '{'], 'к')
    } else if k == 32 {
        (vec!['л'], 'л')
    } else if k == 33 {
        (vec!['l'], 'л')
    } else if k == 34 {
        (vec!['j', 'i'], 'л')
    } else if k == 35 {
        (vec!['м'], 'м')
    } else if k == 36 {
        (vec!['m'], 'м')
    } else if k == 37 {
        (vec!['н'], 'н')
    } else if k == 38 {
        (vec!['h'], 'н')
    } else if k == 39 {
        (vec!['n'], 'н')
    } else if k == 40 {
        (vec!['о'], 'о')
    } else if k == 41 {
        (vec!['o'], 'о')
    } else if k == 42 {
        (vec!['0'], 'о')
    } else if k == 43 {
        (vec!['п'], 'п')
    } else if k == 44 {
        (vec!['n'], 'п')
    } else if k == 45 {
        (vec!['p'], 'п')
    } else if k == 46 {
        (vec!['р'], 'р')
    } else if k == 47 {
        (vec!['r'], 'р')
    } else if k == 48 {
        (vec!['p'], 'р')
    } else if k == 49 {
        (vec!['с'], 'с')
    } else if k == 50 {
        (vec!['c'], 'с')
    } else if k == 51 {
        (vec!['s'], 'с')
    } else if k == 52 {
        (vec!['т'], 'т')
    } else if k == 53 {
        (vec!['m'], 'т')
    } else if k == 54 {
        (vec!['t'], 'т')
    } else if k == 55 {
        (vec!['у'], 'у')
    } else if k == 56 {
        (vec!['y'], 'у')
    } else if k == 57 {
        (vec!['u'], 'у')
    } else if k == 58 {
        (vec!['ф'], 'ф')
    } else if k == 59 {
        (vec!['f'], 'ф')
    } else if k == 60 {
        (vec!['х'], 'х')
    } else if k == 61 {
        (vec!['x'], 'х')
    } else if k == 62 {
        (vec!['h'], 'х')
    } else if k == 63 {
        (vec!['}', '{'], 'х')
    } else if k == 64 {
        (vec![']', '['], 'х')
    } else if k == 65 {
        (vec!['ц'], 'ц')
    } else if k == 66 {
        (vec!['c'], 'ц')
    } else if k == 67 {
        (vec!['u', ','], 'ц')
    } else if k == 68 {
        (vec!['ч'], 'ч')
    } else if k == 69 {
        (vec!['c', 'h'], 'ч')
    } else if k == 70 {
        (vec!['ш'], 'ш')
    } else if k == 71 {
        (vec!['s', 'h'], 'ш')
    } else if k == 72 {
        (vec!['щ'], 'щ')
    } else if k == 73 {
        (vec!['s', 'c', 'h'], 'щ')
    } else if k == 74 {
        (vec!['ъ'], 'ъ')
    } else if k == 75 {
        (vec!['ы'], 'ы')
    } else if k == 76 {
        (vec!['b', 'i'], 'ы')
    } else if k == 77 {
        (vec!['ь'], 'ь')
    } else if k == 78 {
        (vec!['b'], 'ь')
    } else if k == 79 {
        (vec!['э'], 'э')
    } else if k == 80 {
        (vec!['e'], 'э')
    } else if k == 81 {
        (vec!['ю'], 'ю')
    } else if k == 82 {
        (vec!['i', 'o'], 'ю')
    } else if k == 83 {
        (vec!['я'], 'я')
    } else if k == 84 {
        (vec!['y', 'a'], 'я')
    } else if k == 85 {
        (vec!['ё'], 'ё')
    } else {
        (vec!['e'], 'ё')
    }
}

} // verus!

verus! {

/// Folds look-alike characters of `phrase` onto the Cyrillic letters they
/// imitate, applying every substitution in turn.
pub fn filter_phrase(phrase: &str) -> (r: String)
    ensures
        r@ == filtered_phrase(phrase@),
{
    let mut cur = chars_of(phrase);
    let mut k: usize = 0;
    while k < 87
        invariant
            k <= 87,
            cur@ == substituted(phrase@, k as nat),
        decreases 87 - k,
    {
        let (from, to) = substitution_rule(k);
        let replacement = vec![to];
        assert(replacement@ == seq![to]);
        cur = replace_all(&cur, &from, &replacement);
        assert(substituted(phrase@, (k + 1) as nat) == text::replaced(
            substituted(phrase@, k as nat),
            substitution(k as int).0,
            seq![substitution(k as int).1],
        ));
        k = k + 1;
    }
    string_of(&cur)
}

/// A word of the moderation list with the edit distance up to which a text
/// is taken to contain it.
pub struct AbusiveWord {
    pub text: String,
    pub tolerance: usize,
}

impl AbusiveWord {
    /// A moderation-list entry.
    pub fn new(text: String, tolerance: usize) -> (w: AbusiveWord)
        ensures
            w.text@ == text@,
            w.tolerance == tolerance,
    {
        AbusiveWord { text, tolerance }
    }
}

/// The first word of `ws` that is abusive as a whole word, if any.
pub open spec fn first_abusive_word(ws: Seq<Seq<char>>, list: Seq<AbusiveWord>) -> Option<Seq<char>>
    decreases ws.len(),
{
    if ws.len() == 0 {
        None
    } else {
        match first_abusive_word(ws.drop_last(), list) {
            Some(w) => Some(w),
            None => if abusive_word_in_list(ws.last(), list) {
                Some(ws.last())
            } else {
                None
            },
        }
    }
}

/// The first word, over the texts in order and each text once substituted,
/// that is abusive as a whole word, if any.
pub open spec fn first_abusive_in(texts: Seq<String>, list: Seq<AbusiveWord>) -> Option<Seq<char>>
    decreases texts.len(),
{
    if texts.len() == 0 {
        None
    } else {
        match first_abusive_in(texts.drop_last(), list) {
            Some(w) => Some(w),
            None => first_abusive_word(text::words(filtered_phrase(texts.last()@)), list),
        }
    }
}

proof fn lemma_first_abusive_word_prefix(ws: Seq<Seq<char>>, i: int, list: Seq<AbusiveWord>)
    requires
        0 <= i <= ws.len(),
        first_abusive_word(ws.take(i), list) is Some,
    ensures
        first_abusive_word(ws, list) == first_abusive_word(ws.take(i), list),
    decreases ws.len() - i,
{
    if i < ws.len() {
        assert(ws.take(i + 1).drop_last() =~= ws.take(i));
        lemma_first_abusive_word_prefix(ws, i + 1, list);
    } else {
        assert(ws.take(i) =~= ws);
    }
}

proof fn lemma_first_abusive_in_prefix(texts: Seq<String>, i: int, list: Seq<AbusiveWord>)
    requires
        0 <= i <= texts.len(),
        first_abusive_in(texts.take(i), list) is Some,
    ensures
        first_abusive_in(texts, list) == first_abusive_in(texts.take(i), list),
    decreases texts.len() - i,
{
    if i < texts.len() {
        assert(texts.take(i + 1).drop_last() =~= texts.take(i));
        lemma_first_abusive_in_prefix(texts, i + 1, list);
    } else {
        assert(texts.take(i) =~= texts);
    }
}

proof fn lemma_first_abusive_word_none(ws: Seq<Seq<char>>, list: Seq<AbusiveWord>)
    ensures
        first_abusive_word(ws, list) is None <==> forall|i: int|
            0 <= i < ws.len() ==> !#[trigger] abusive_word_in_list(ws[i], list),
    decreases ws.len(),
{
    if ws.len() > 0 {
        lemma_first_abusive_word_none(ws.drop_last(), list);
        if first_abusive_word(ws, list) is None {
            assert forall|i: int| 0 <= i < ws.len() implies !#[trigger] abusive_word_in_list(ws[i], list) by {
                if i < ws.len() - 1 {
                    assert(ws.drop_last()[i] == ws[i]);
                }
            }
        } else {
            if first_abusive_word(ws.drop_last(), list) is Some {
                let i = choose|i: int| 0 <= i < ws.drop_last().len() && #[trigger] abusive_word_in_list(ws.drop_last()[i], list);
                assert(ws.drop_last()[i] == ws[i]);
            } else {
                assert(abusive_word_in_list(ws[ws.len() - 1], list));
            }
        }
    }
}

proof fn lemma_first_abusive_in_none(texts: Seq<String>, list: Seq<AbusiveWord>)
    ensures
        first_abusive_in(texts, list) is None <==> forall|i: int|
            0 <= i < texts.len() ==> !#[trigger] contains_abusive(filtered_phrase(texts[i]@), list),
    decreases texts.len(),
{
    if texts.len() > 0 {
        lemma_first_abusive_in_none(texts.drop_last(), list);
        lemma_first_abusive_word_none(text::words(filtered_phrase(texts.last()@)), list);
        if first_abusive_in(texts, list) is None {
            assert forall|i: int| 0 <= i < texts.len() implies !#[trigger] contains_abusive(filtered_phrase(texts[i]@), list) by {
                if i < texts.len() - 1 {
                    assert(texts.drop_last()[i] == texts[i]);
                }
            }
        } else {
            if first_abusive_in(texts.drop_last(), list) is Some {
                let i = choose|i: int| 0 <= i < texts.drop_last().len() && #[trigger] contains_abusive(filtered_phrase(texts.drop_last()[i]@), list);
                assert(texts.drop_last()[i] == texts[i]);
            } else {
                let ws = text::words(filtered_phrase(texts.last()@));
                let j = choose|j: int| 0 <= j < ws.len() && !!#[trigger] abusive_word_in_list(ws[j], list);
                assert(abusive_word_in_list(ws[j], list));
                assert(contains_abusive(filtered_phrase(texts[texts.len() - 1]@), list));
            }
        }
    }
}

/// The characters `s.chars().skip(part).take(len)` of a text.
pub open spec fn fragment(s: Seq<char>, part: int, len: int) -> Seq<char> {
    let start = if part < s.len() {
        part
    } else {
        s.len() as int
    };
    let end = if start + len < s.len() {
        start + len
    } else {
        s.len() as int
    };
    s.subrange(start, end)
}

/// Whether some fragment of `cleaned`, as long in characters as `abusive`
/// is in bytes and starting at most the byte-length difference in, lies
/// within `tolerance` of `abusive`.
pub open spec fn abusive_by_fragment(cleaned: Seq<char>, abusive: Seq<char>, tolerance: nat) -> bool {
    let wl = text::utf8_len(abusive);
    let cl = text::utf8_len(cleaned);
    &&& wl != 0
    &&& wl <= cl
    &&& exists|part: int|
        0 <= part <= cl - wl && #[trigger] levenshtein(fragment(cleaned, part, wl as int), abusive)
            <= tolerance
}

/// A word as it is compared with the moderation list: lower-cased and
/// without spaces.
pub open spec fn cleaned_word(word: Seq<char>) -> Seq<char> {
    text::without_spaces(text::lowercase_of(word))
}

/// The mask that replaces an abusive word.
pub open spec fn mask() -> Seq<char> {
    seq!['*', '*', '*']
}

/// Whether a character is ASCII punctuation, as
/// `char::is_ascii_punctuation` tests it.
pub open spec fn is_punctuation(c: char) -> bool {
    let n = c as u32;
    ||| 0x21 <= n <= 0x2F
    ||| 0x3A <= n <= 0x40
    ||| 0x5B <= n <= 0x60
    ||| 0x7B <= n <= 0x7E
}

/// The number of punctuation characters that open `w`.
pub open spec fn leading_punctuation(w: Seq<char>) -> nat
    decreases w.len(),
{
    if w.len() > 0 && is_punctuation(w[0]) {
        1 + leading_punctuation(w.drop_first())
    } else {
        0
    }
}

/// The number of punctuation characters that close `w`.
pub open spec fn trailing_punctuation(w: Seq<char>) -> nat
    decreases w.len(),
{
    if w.len() > 0 && is_punctuation(w.last()) {
        1 + trailing_punctuation(w.drop_last())
    } else {
        0
    }
}

/// A word with the mask in place of everything but the punctuation that
/// opens and closes it.
pub open spec fn masked_form(w: Seq<char>) -> Seq<char> {
    let l = leading_punctuation(w);
    let rest = w.skip(l as int);
    w.take(l as int) + mask() + rest.skip(rest.len() - trailing_punctuation(rest))
}

/// A word, or, if a fragment of it is close to some listed word, the word
/// masked with its surrounding punctuation kept.
pub open spec fn masked_word(word: Seq<char>, list: Seq<AbusiveWord>) -> Seq<char> {
    if exists|k: int|
        0 <= k < list.len() && #[trigger] abusive_by_fragment(
            cleaned_word(word),
            list[k].text@,
            list[k].tolerance as nat,
        ) {
        masked_form(word)
    } else {
        word
    }
}

proof fn lemma_leading_punctuation_bound(w: Seq<char>)
    ensures
        leading_punctuation(w) <= w.len(),
    decreases w.len(),
{
    if w.len() > 0 {
        lemma_leading_punctuation_bound(w.drop_first());
    }
}

proof fn lemma_trailing_punctuation_bound(w: Seq<char>)
    ensures
        trailing_punctuation(w) <= w.len(),
    decreases w.len(),
{
    if w.len() > 0 {
        lemma_trailing_punctuation_bound(w.drop_last());
    }
}

/// Whether `c` is ASCII punctuation.
fn punctuation_char(c: char) -> (b: bool)
    ensures
        b == is_punctuation(c),
{
    let n = c as u32;
    (0x21 <= n && n <= 0x2F) || (0x3A <= n && n <= 0x40) || (0x5B <= n && n <= 0x60) || (0x7B <= n && n
        <= 0x7E)
}

/// Counts the punctuation that opens `w`.
fn count_leading_punctuation(w: &Vec<char>) -> (n: usize)
    ensures
        n == leading_punctuation(w@),
{
    let mut i: usize = 0;
    assert(w@.skip(0) =~= w@);
    while i < w.len() && punctuation_char(w[i])
        invariant
            i <= w.len(),
            leading_punctuation(w@) == i + leading_punctuation(w@.skip(i as int)),
        decreases w.len() - i,
    {
        assert(w@.skip(i as int).drop_first() =~= w@.skip(i + 1));
        assert(w@.skip(i as int)[0] == w@[i as int]);
        i = i + 1;
    }
    if i < w.len() {
        assert(w@.skip(i as int)[0] == w@[i as int]);
    } else {
        assert(w@.skip(i as int).len() == 0);
    }
    i
}

/// Counts the punctuation that closes `w`.
fn count_trailing_punctuation(w: &Vec<char>) -> (n: usize)
    ensures
        n == trailing_punctuation(w@),
{
    let mut j: usize = 0;
    assert(w@.take(w.len() as int) =~= w@);
    while j < w.len() && punctuation_char(w[w.len() - 1 - j])
        invariant
            j <= w.len(),
            trailing_punctuation(w@) == j + trailing_punctuation(w@.take(w.len() - j)),
        decreases w.len() - j,
    {
        assert(w@.take(w.len() - j).drop_last() =~= w@.take(w.len() - j - 1));
        assert(w@.take(w.len() - j).last() == w@[w.len() - 1 - j]);
        j = j + 1;
    }
    if j < w.len() {
        assert(w@.take(w.len() - j).last() == w@[w.len() - 1 - j]);
    } else {
        assert(w@.take(w.len() - j).len() == 0);
    }
    j
}

/// The characters `w[from..to]` appended to `out`.
fn append_range(out: &mut Vec<char>, w: &Vec<char>, from: usize, to: usize)
    requires
        from <= to <= w.len(),
    ensures
        final(out)@ == old(out)@ + w@.subrange(from as int, to as int),
{
    let mut k = from;
    while k < to
        invariant
            from <= k <= to <= w.len(),
            out@ == old(out)@ + w@.subrange(from as int, k as int),
        decreases to - k,
    {
        out.push(w[k]);
        assert(old(out)@ + w@.subrange(from as int, k + 1) =~= old(out)@ + w@.subrange(from as int, k as int)
            + seq![w@[k as int]]);
        k = k + 1;
    }
}

/// The word masked, with the punctuation that opens and closes it kept.
fn mask_form(w: &Vec<char>) -> (r: Vec<char>)
    ensures
        r@ == masked_form(w@),
{
    let l = count_leading_punctuation(w);
    proof {
        lemma_leading_punctuation_bound(w@);
    }
    let mut rest: Vec<char> = Vec::new();
    append_range(&mut rest, w, l, w.len());
    assert(rest@ =~= w@.skip(l as int));
    let t = count_trailing_punctuation(&rest);
    proof {
        lemma_trailing_punctuation_bound(rest@);
    }
    let mut r: Vec<char> = Vec::new();
    append_range(&mut r, w, 0, l);
    r.push('*');
    r.push('*');
    r.push('*');
    append_range(&mut r, &rest, rest.len() - t, rest.len());
    assert(r@ =~= w@.take(l as int) + mask() + rest@.skip(rest.len() - t));
    r
}

/// A text with each of its words masked or kept, joined by single spaces.
pub open spec fn masked_text(s: Seq<char>, list: Seq<AbusiveWord>) -> Seq<char> {
    text::joined(text::words(s).map_values(|w: Seq<char>| masked_word(w, list)), seq![' '])
}

/// A text as the moderation shows it: substituted, then masked.
pub open spec fn moderated_text(s: Seq<char>, list: Seq<AbusiveWord>) -> Seq<char> {
    masked_text(filtered_phrase(s), list)
}

/// Whether a whole word, cleaned, lies within tolerance of some listed word.
pub open spec fn abusive_word_in_list(word: Seq<char>, list: Seq<AbusiveWord>) -> bool {
    exists|k: int|
        0 <= k < list.len() && #[trigger] levenshtein(cleaned_word(word), list[k].text@)
            <= list[k].tolerance
}

/// Whether some word of the text is abusive by `abusive_word_in_list`.
pub open spec fn contains_abusive(s: Seq<char>, list: Seq<AbusiveWord>) -> bool {
    exists|i: int|
        0 <= i < text::words(s).len() && #[trigger] abusive_word_in_list(text::words(s)[i], list)
}

/// The fragment of `s` starting at character `part` and `len` characters long.
fn fragment_of(s: &Vec<char>, part: usize, len: usize) -> (r: String)
    ensures
        r@ == fragment(s@, part as int, len as int),
{
    let start = if part < s.len() { part } else { s.len() };
    let end = if len < s.len() - start { start + len } else { s.len() };
    let mut v: Vec<char> = Vec::new();
    let mut k = start;
    while k < end
        invariant
            start <= k <= end <= s.len(),
            v@ == s@.subrange(start as int, k as int),
        decreases end - k,
    {
        v.push(s[k]);
        assert(s@.subrange(start as int, k + 1) =~= s@.subrange(start as int, k as int).push(s@[k as int]));
        k = k + 1;
    }
    string_of(&v)
}

/// The service that moderates advertising texts against a list of abusive
/// words; it holds the sensitivity from which each listed word's tolerance
/// is derived.
pub struct ModerateTextService<S> {
    pub sensitivity: S,
}

impl<S> ModerateTextService<S> {
    /// A service with the given sensitivity.
    pub fn new(sensitivity: S) -> (s: Self)
        ensures
            s.sensitivity == sensitivity,
    {
        ModerateTextService { sensitivity }
    }

    /// Whether `cleaned_word` contains, within `tolerance`, the word
    /// `abusive_word`: some fragment of it, as many characters long as the
    /// abusive word has bytes and starting no further in than the difference
    /// of their byte lengths, lies within `tolerance` of it.
    pub fn is_abusive_word(&self, cleaned_word: &str, abusive_word: &str, tolerance: usize) -> (b: bool)
        ensures
            b == abusive_by_fragment(cleaned_word@, abusive_word@, tolerance as nat),
    {
        let word_length = byte_len(abusive_word);
        let cleaned_word_length = byte_len(cleaned_word);
        if word_length == 0 || word_length > cleaned_word_length {
            return false;
        }
        let chars = chars_of(cleaned_word);
        let last = cleaned_word_length - word_length;
        let mut part: usize = 0;
        while part <= last
            invariant
                word_length == text::utf8_len(abusive_word@),
                cleaned_word_length == text::utf8_len(cleaned_word@),
                0 < word_length <= cleaned_word_length,
                last == cleaned_word_length - word_length,
                chars@ == cleaned_word@,
                part <= last + 1,
                forall|p: int|
                    0 <= p < part ==> !(#[trigger] levenshtein(
                        fragment(cleaned_word@, p, word_length as int),
                        abusive_word@,
                    ) <= tolerance),
            decreases last + 1 - part,
        {
            let piece = fragment_of(&chars, part, word_length);
            if levenshtein_distance(&piece, abusive_word) <= tolerance {
                return true;
            }
            part = part + 1;
        }
        false
    }

    /// A word, or the word masked if it is abusive by `is_abusive_word`.
    fn mask_word(&self, word: &Vec<char>, list: &Vec<AbusiveWord>) -> (r: Vec<char>)
        ensures
            r@ == masked_word(word@, list@),
    {
        let lower = to_lowercase(&string_of(word));
        let cleaned = string_of(&remove_spaces(&chars_of(&lower)));
        let mut k: usize = 0;
        while k < list.len()
            invariant
                k <= list.len(),
                cleaned@ == cleaned_word(word@),
                forall|t: int|
                    0 <= t < k ==> !#[trigger] abusive_by_fragment(
                        cleaned_word(word@),
                        list@[t].text@,
                        list@[t].tolerance as nat,
                    ),
            decreases list.len() - k,
        {
            if self.is_abusive_word(&cleaned, &list[k].text, list[k].tolerance) {
                return mask_form(word);
            }
            k = k + 1;
        }
        word.clone()
    }

    /// Masks every abusive word of `phrase`; words are rejoined with
    /// single spaces.
    pub fn mask_abusive_words(&self, phrase: &str, list: &Vec<AbusiveWord>) -> (r: String)
        ensures
            r@ == masked_text(phrase@, list@),
    {
        let split = split_words(&chars_of(phrase));
        let mut out: Vec<Vec<char>> = Vec::new();
        let mut i: usize = 0;
        while i < split.len()
            invariant
                i <= split.len(),
                split.deep_view() == text::words(phrase@),
                out.deep_view() =~= split.deep_view().take(i as int).map_values(
                    |w: Seq<char>| masked_word(w, list@),
                ),
            decreases split.len() - i,
        {
            assert(split.deep_view()[i as int] =~= split@[i as int]@);
            let masked = self.mask_word(&split[i], list);
            let ghost mv = masked@;
            assert(masked.deep_view() =~= mv);
            let ghost before = out.deep_view();
            out.push(masked);
            assert(out.deep_view() =~= before.push(mv));
            assert(split.deep_view().take(i + 1).map_values(|w: Seq<char>| masked_word(w, list@))
                =~= split.deep_view().take(i as int).map_values(|w: Seq<char>| masked_word(w, list@)).push(mv));
            i = i + 1;
        }
        assert(split.deep_view().take(split.len() as int) =~= split.deep_view());
        string_of(&join_with_spaces(&out))
    }

    /// Whether the whole word, cleaned, lies within tolerance of a listed word.
    fn is_abusive_word_vec(&self, word: &Vec<char>, list: &Vec<AbusiveWord>) -> (b: bool)
        ensures
            b == abusive_word_in_list(word@, list@),
    {
        let lower = to_lowercase(&string_of(word));
        let cleaned = string_of(&remove_spaces(&chars_of(&lower)));
        let mut k: usize = 0;
        while k < list.len()
            invariant
                k <= list.len(),
                cleaned@ == cleaned_word(word@),
                forall|t: int|
                    0 <= t < k ==> !(#[trigger] levenshtein(cleaned_word(word@), list@[t].text@)
                        <= list@[t].tolerance),
            decreases list.len() - k,
        {
            if levenshtein_distance(&cleaned, &list[k].text) <= list[k].tolerance {
                return true;
            }
            k = k + 1;
        }
        false
    }

    /// Whether some word of `phrase` is abusive as a whole word.
    fn contains_abusive_words(&self, phrase: &str, list: &Vec<AbusiveWord>) -> (b: bool)
        ensures
            b == contains_abusive(phrase@, list@),
    {
        let split = split_words(&chars_of(phrase));
        let mut i: usize = 0;
        while i < split.len()
            invariant
                i <= split.len(),
                split.deep_view() == text::words(phrase@),
                forall|t: int|
                    0 <= t < i ==> !#[trigger] abusive_word_in_list(text::words(phrase@)[t], list@),
            decreases split.len() - i,
        {
            assert(split.deep_view()[i as int] =~= split@[i as int]@);
            if self.is_abusive_word_vec(&split[i], list) {
                return true;
            }
            i = i + 1;
        }
        false
    }

    /// The texts as shown to clients: when moderation is active each text is
    /// substituted and its abusive words masked; otherwise the texts are
    /// returned as they are.
    pub fn hide_abusive_content(&self, text: &Vec<String>, is_activated: bool, list: &Vec<AbusiveWord>) -> (r: Vec<String>)
        ensures
            r.len() == text.len(),
            forall|i: int|
                0 <= i < text.len() ==> #[trigger] r@[i]@ == if is_activated {
                    moderated_text(text@[i]@, list@)
                } else {
                    text@[i]@
                },
    {
        let mut r: Vec<String> = Vec::new();
        let mut i: usize = 0;
        while i < text.len()
            invariant
                i <= text.len(),
                r.len() == i,
                forall|t: int|
                    0 <= t < i ==> #[trigger] r@[t]@ == if is_activated {
                        moderated_text(text@[t]@, list@)
                    } else {
                        text@[t]@
                    },
            decreases text.len() - i,
        {
            if is_activated {
                let filtered = filter_phrase(&text[i]);
                r.push(self.mask_abusive_words(&filtered, list));
            } else {
                r.push(text[i].clone());
            }
            i = i + 1;
        }
        r
    }

    /// Refuses texts while moderation is active and some text, once
    /// substituted, holds a word that is abusive as a whole word; the error
    /// names the first such word.
    pub fn refuse_abusive_content(&self, text: &Vec<String>, is_activated: bool, list: &Vec<AbusiveWord>) -> (r: Result<(), ServiceError>)
        ensures
            !is_activated ==> r is Ok,
            is_activated ==> (r is Ok <==> first_abusive_in(text@, list@) is None),
            r matches Err(e) ==> (e matches ServiceError::Censorship(w) && first_abusive_in(text@, list@) == Some(
                w@,
            )),
    {
        if !is_activated {
            return Ok(());
        }
        let mut i: usize = 0;
        while i < text.len()
            invariant
                is_activated,
                i <= text.len(),
                first_abusive_in(text@.take(i as int), list@) is None,
            decreases text.len() - i,
        {
            assert(text@.take(i + 1).drop_last() =~= text@.take(i as int));
            assert(text@.take(i + 1).last() == text@[i as int]);
            let filtered = filter_phrase(&text[i]);
            let split = split_words(&chars_of(&filtered));
            let ghost ws = text::words(filtered_phrase(text@[i as int]@));
            assert(split.deep_view() == ws);
            let mut j: usize = 0;
            while j < split.len()
                invariant
                    is_activated,
                    i < text.len(),
                    j <= split.len(),
                    split.deep_view() == ws,
                    ws == text::words(filtered_phrase(text@[i as int]@)),
                    first_abusive_in(text@.take(i as int), list@) is None,
                    first_abusive_in(text@.take(i + 1), list@) == first_abusive_word(ws, list@),
                    first_abusive_word(ws.take(j as int), list@) is None,
                decreases split.len() - j,
            {
                assert(ws.take(j + 1).drop_last() =~= ws.take(j as int));
                assert(split.deep_view()[j as int] =~= split@[j as int]@);
                assert(ws.take(j + 1).last() == ws[j as int]);
                if self.is_abusive_word_vec(&split[j], list) {
                    proof {
                        lemma_first_abusive_word_prefix(ws, j + 1, list@);
                        lemma_first_abusive_in_prefix(text@, i + 1, list@);
                    }
                    return Err(ServiceError::Censorship(string_of(&split[j])));
                }
                j = j + 1;
            }
            assert(ws.take(split.len() as int) =~= ws);
            i = i + 1;
        }
        assert(text@.take(text.len() as int) =~= text@);
        Ok(())
    }

    /// Whether moderation is active and some text, once substituted, holds a
    /// word that is abusive as a whole word.
    pub fn check_abusive_content(&self, text: &Vec<String>, is_activated: bool, list: &Vec<AbusiveWord>) -> (b: bool)
        ensures
            b == (is_activated && exists|i: int|
                0 <= i < text.len() && #[trigger] contains_abusive(filtered_phrase(text@[i]@), list@)),
    {
        if !is_activated {
            return false;
        }
        let mut i: usize = 0;
        while i < text.len()
            invariant
                is_activated,
                i <= text.len(),
                forall|t: int|
                    0 <= t < i ==> !#[trigger] contains_abusive(filtered_phrase(text@[t]@), list@),
            decreases text.len() - i,
        {
            let filtered = filter_phrase(&text[i]);
            if self.contains_abusive_words(&filtered, list) {
                return true;
            }
            i = i + 1;
        }
        false
    }
}

} // verus!

verus! {

/// A text is at distance zero from itself.
pub proof fn law_levenshtein_self(a: Seq<char>)
    ensures
        levenshtein(a, a) == 0,
{
    lemma_edit_distance_self(slots(a, text::utf8_len(a)));
}

/// The distance between two texts does not depend on their order.
pub proof fn law_levenshtein_symmetric(a: Seq<char>, b: Seq<char>)
    ensures
        levenshtein(a, b) == levenshtein(b, a),
{
    lemma_edit_distance_symmetric(slots(a, text::utf8_len(a)), slots(b, text::utf8_len(b)));
}

/// The distance between two texts never exceeds the byte length of the
/// longer one.
pub proof fn law_levenshtein_bounded(a: Seq<char>, b: Seq<char>)
    ensures
        levenshtein(a, b) <= if text::utf8_len(a) >= text::utf8_len(b) {
            text::utf8_len(a)
        } else {
            text::utf8_len(b)
        },
{
    lemma_edit_distance_bound(slots(a, text::utf8_len(a)), slots(b, text::utf8_len(b)));
}

/// A text has at least as many bytes as characters.
pub proof fn lemma_utf8_len_at_least_chars(s: Seq<char>)
    ensures
        text::utf8_len(s) >= s.len(),
    decreases s.len(),
{
    if s.len() > 0 {
        lemma_utf8_len_at_least_chars(s.drop_first());
        assert(vstd::utf8::encode_scalar(s[0] as u32).len() >= 1);
    }
}

/// A non-empty word is found in itself, whatever the tolerance.
pub proof fn law_word_found_in_itself(w: Seq<char>, tolerance: nat)
    requires
        w.len() > 0,
    ensures
        abusive_by_fragment(w, w, tolerance),
{
    lemma_utf8_len_at_least_chars(w);
    let wl = text::utf8_len(w);
    assert(fragment(w, 0, wl as int) =~= w);
    law_levenshtein_self(w);
    assert(levenshtein(fragment(w, 0, wl as int), w) <= tolerance);
}

/// Replacing a text by itself changes nothing, as with the first look-alike
/// of each letter, which is the letter itself.
pub proof fn law_replacing_by_itself_keeps_text(s: Seq<char>, from: Seq<char>)
    requires
        from.len() > 0,
    ensures
        text::replaced(s, from, from) == s,
    decreases s.len(),
{
    if s.len() > 0 {
        if from.len() <= s.len() && s.take(from.len() as int) == from {
            law_replacing_by_itself_keeps_text(s.skip(from.len() as int), from);
            assert(from + s.skip(from.len() as int) =~= s);
        } else {
            law_replacing_by_itself_keeps_text(s.drop_first(), from);
            assert(seq![s[0]] + s.drop_first() =~= s);
        }
    }
}

} // verus!

verus! {

/// A higher tolerance finds at least the words that a lower one finds.
pub proof fn law_higher_tolerance_finds_more(cleaned: Seq<char>, abusive: Seq<char>, low: nat, high: nat)
    requires
        low <= high,
        abusive_by_fragment(cleaned, abusive, low),
    ensures
        abusive_by_fragment(cleaned, abusive, high),
{
    let wl = text::utf8_len(abusive);
    let cl = text::utf8_len(cleaned);
    let part = choose|part: int|
        0 <= part <= cl - wl && #[trigger] levenshtein(fragment(cleaned, part, wl as int), abusive) <= low;
    assert(levenshtein(fragment(cleaned, part, wl as int), abusive) <= high);
}

/// An empty listed word, or one longer in bytes than the word it is looked
/// for in, is never found, whatever the tolerance.
pub proof fn law_empty_or_longer_word_never_found(cleaned: Seq<char>, abusive: Seq<char>, tolerance: nat)
    requires
        abusive.len() == 0 || text::utf8_len(abusive) > text::utf8_len(cleaned),
    ensures
        !abusive_by_fragment(cleaned, abusive, tolerance),
{
    if abusive.len() == 0 {
        assert(abusive =~= Seq::<char>::empty());
        assert(vstd::utf8::encode_utf8(abusive).len() == 0) by {
            reveal_with_fuel(vstd::utf8::encode_utf8, 2);
        }
    }
}

/// Texts are refused exactly when the check finds an abusive word in them.
pub proof fn law_refusal_agrees_with_check(texts: Seq<String>, list: Seq<AbusiveWord>)
    ensures
        first_abusive_in(texts, list) is Some <==> exists|i: int|
            0 <= i < texts.len() && #[trigger] contains_abusive(filtered_phrase(texts[i]@), list),
{
    lemma_first_abusive_in_none(texts, list);
}

} // verus!

verus! {

/// A word is masked as soon as any entry of the moderation list finds it,
/// wherever that entry stands in the list.
pub proof fn law_any_listed_word_masks(w: Seq<char>, list: Seq<AbusiveWord>, k: int)
    requires
        0 <= k < list.len(),
        abusive_by_fragment(cleaned_word(w), list[k].text@, list[k].tolerance as nat),
    ensures
        masked_word(w, list) == masked_form(w),
{
}

/// A word that no entry of the moderation list finds is shown as it is.
pub proof fn law_unfound_word_is_kept(w: Seq<char>, list: Seq<AbusiveWord>)
    requires
        forall|k: int|
            0 <= k < list.len() ==> !abusive_by_fragment(cleaned_word(w), list[k].text@, list[k].tolerance as nat),
    ensures
        masked_word(w, list) == w,
{
}

/// Masking grows with the list: a word masked with some entries is masked
/// with every list that holds those entries, in any order.
pub proof fn law_masking_grows_with_the_list(w: Seq<char>, small: Seq<AbusiveWord>, big: Seq<AbusiveWord>)
    requires
        forall|i: int| 0 <= i < small.len() ==> exists|j: int| 0 <= j < big.len() && #[trigger] big[j] == #[trigger] small[i],
        masked_word(w, small) != w,
    ensures
        masked_word(w, big) == masked_form(w),
{
    let k = choose|k: int|
        0 <= k < small.len() && #[trigger] abusive_by_fragment(
            cleaned_word(w),
            small[k].text@,
            small[k].tolerance as nat,
        );
    let j = choose|j: int| 0 <= j < big.len() && big[j] == small[k];
    law_any_listed_word_masks(w, big, j);
}

/// A word within tolerance of any entry of the moderation list is abusive,
/// wherever that entry stands in the list.
pub proof fn law_any_listed_word_is_abusive(w: Seq<char>, list: Seq<AbusiveWord>, k: int)
    requires
        0 <= k < list.len(),
        levenshtein(cleaned_word(w), list[k].text@) <= list[k].tolerance,
    ensures
        abusive_word_in_list(w, list),
{
}

/// Texts in which some word, once substituted, lies within tolerance of any
/// entry of the moderation list are refused.
pub proof fn law_text_with_a_listed_word_is_refused(texts: Seq<String>, list: Seq<AbusiveWord>, i: int, j: int, k: int)
    requires
        0 <= i < texts.len(),
        0 <= j < text::words(filtered_phrase(texts[i]@)).len(),
        0 <= k < list.len(),
        levenshtein(cleaned_word(text::words(filtered_phrase(texts[i]@))[j]), list[k].text@)
            <= list[k].tolerance,
    ensures
        first_abusive_in(texts, list) is Some,
{
    law_any_listed_word_is_abusive(text::words(filtered_phrase(texts[i]@))[j], list, k);
    assert(contains_abusive(filtered_phrase(texts[i]@), list));
    law_refusal_agrees_with_check(texts, list);
}

/// Texts refused with some entries are refused with every list that holds
/// those entries, in any order.
pub proof fn law_refusal_grows_with_the_list(texts: Seq<String>, small: Seq<AbusiveWord>, big: Seq<AbusiveWord>)
    requires
        forall|i: int| 0 <= i < small.len() ==> exists|j: int| 0 <= j < big.len() && #[trigger] big[j] == #[trigger] small[i],
        first_abusive_in(texts, small) is Some,
    ensures
        first_abusive_in(texts, big) is Some,
{
    law_refusal_agrees_with_check(texts, small);
    let i = choose|i: int| 0 <= i < texts.len() && #[trigger] contains_abusive(filtered_phrase(texts[i]@), small);
    let ws = text::words(filtered_phrase(texts[i]@));
    let j = choose|j: int| 0 <= j < ws.len() && #[trigger] abusive_word_in_list(ws[j], small);
    let k = choose|k: int|
        0 <= k < small.len() && #[trigger] levenshtein(cleaned_word(ws[j]), small[k].text@) <= small[k].tolerance;
    let m = choose|m: int| 0 <= m < big.len() && big[m] == small[k];
    law_text_with_a_listed_word_is_refused(texts, big, i, j, m);
}

} // verus!

verus! {

/// The number of positions at which two sequences of one length differ.
pub open spec fn differing_positions<T>(a: Seq<T>, b: Seq<T>) -> nat
    decreases a.len(),
{
    if a.len() == 0 || b.len() == 0 {
        0
    } else {
        differing_positions(a.drop_last(), b.drop_last()) + if a.last() == b.last() {
            0nat
        } else {
            1nat
        }
    }
}

/// Changing positions in place costs at most one edit each.
pub proof fn law_edit_distance_at_most_differing_positions<T>(a: Seq<T>, b: Seq<T>)
    requires
        a.len() == b.len(),
    ensures
        edit_distance(a, b) <= differing_positions(a, b),
    decreases a.len(),
{
    if a.len() > 0 {
        law_edit_distance_at_most_differing_positions(a.drop_last(), b.drop_last());
    }
}

/// Two sequences are at least as far apart as their lengths differ.
pub proof fn law_edit_distance_at_least_length_difference<T>(a: Seq<T>, b: Seq<T>)
    ensures
        edit_distance(a, b) >= a.len() - b.len(),
        edit_distance(a, b) >= b.len() - a.len(),
    decreases a.len() + b.len(),
{
    if a.len() > 0 && b.len() > 0 {
        law_edit_distance_at_least_length_difference(a.drop_last(), b);
        law_edit_distance_at_least_length_difference(a, b.drop_last());
        law_edit_distance_at_least_length_difference(a.drop_last(), b.drop_last());
    }
}

/// Only equal sequences are at distance zero.
pub proof fn law_edit_distance_zero_only_on_equal<T>(a: Seq<T>, b: Seq<T>)
    requires
        edit_distance(a, b) == 0,
    ensures
        a == b,
    decreases a.len() + b.len(),
{
    law_edit_distance_at_least_length_difference(a, b);
    if a.len() > 0 && b.len() > 0 {
        law_edit_distance_at_least_length_difference(a.drop_last(), b);
        law_edit_distance_at_least_length_difference(a, b.drop_last());
        law_edit_distance_zero_only_on_equal(a.drop_last(), b.drop_last());
        assert(a =~= a.drop_last().push(a.last()));
        assert(b =~= b.drop_last().push(b.last()));
    } else {
        assert(a =~= b);
    }
}

} // verus!

verus! {

proof fn lemma_leading_after_punctuation(p: Seq<char>, r: Seq<char>)
    requires
        forall|i: int| 0 <= i < p.len() ==> is_punctuation(#[trigger] p[i]),
    ensures
        leading_punctuation(p + r) == p.len() + leading_punctuation(r),
    decreases p.len(),
{
    if p.len() > 0 {
        assert((p + r)[0] == p[0]);
        assert((p + r).drop_first() =~= p.drop_first() + r);
        assert forall|i: int| 0 <= i < p.drop_first().len() implies is_punctuation(#[trigger] p.drop_first()[i]) by {
            assert(p.drop_first()[i] == p[i + 1]);
        }
        lemma_leading_after_punctuation(p.drop_first(), r);
    } else {
        assert(p + r =~= r);
    }
}

proof fn lemma_trailing_before_punctuation(r: Seq<char>, q: Seq<char>)
    requires
        forall|i: int| 0 <= i < q.len() ==> is_punctuation(#[trigger] q[i]),
    ensures
        trailing_punctuation(r + q) == q.len() + trailing_punctuation(r),
    decreases q.len(),
{
    if q.len() > 0 {
        assert((r + q).last() == q.last());
        assert((r + q).drop_last() =~= r + q.drop_last());
        assert(is_punctuation(q[q.len() - 1]));
        assert forall|i: int| 0 <= i < q.drop_last().len() implies is_punctuation(#[trigger] q.drop_last()[i]) by {
            assert(q.drop_last()[i] == q[i]);
        }
        lemma_trailing_before_punctuation(r, q.drop_last());
    } else {
        assert(r + q =~= r);
    }
}

/// Masking replaces exactly the word between its opening and closing
/// punctuation: a word made of punctuation `p`, then a part `core` that
/// neither opens nor closes with punctuation, then punctuation `q`, is
/// masked as `p`, then `***`, then `q`.
pub proof fn law_masking_keeps_surrounding_punctuation(p: Seq<char>, core: Seq<char>, q: Seq<char>)
    requires
        forall|i: int| 0 <= i < p.len() ==> is_punctuation(#[trigger] p[i]),
        forall|i: int| 0 <= i < q.len() ==> is_punctuation(#[trigger] q[i]),
        core.len() > 0,
        !is_punctuation(core[0]),
        !is_punctuation(core.last()),
    ensures
        masked_form(p + core + q) == p + seq!['*', '*', '*'] + q,
{
    let w = p + core + q;
    assert(w =~= p + (core + q));
    lemma_leading_after_punctuation(p, core + q);
    assert((core + q)[0] == core[0]);
    assert(leading_punctuation(core + q) == 0);
    let rest = w.skip(p.len() as int);
    assert(rest =~= core + q);
    assert(w.take(p.len() as int) =~= p);
    lemma_trailing_before_punctuation(core, q);
    assert(trailing_punctuation(core) == 0);
    assert(rest.skip(rest.len() - q.len()) =~= q);
}

} // verus!

verus! {

/// Two texts are at least as far apart as their byte lengths differ, and a
/// text is at distance at most its byte length from the empty text.
pub proof fn law_levenshtein_counts_bytes(a: Seq<char>, b: Seq<char>)
    ensures
        levenshtein(a, b) >= text::utf8_len(a) - text::utf8_len(b),
        levenshtein(a, b) >= text::utf8_len(b) - text::utf8_len(a),
{
    law_edit_distance_at_least_length_difference(slots(a, text::utf8_len(a)), slots(b, text::utf8_len(b)));
}

} // verus!
