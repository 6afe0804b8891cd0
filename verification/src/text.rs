//! String-level helpers: the date-shaped filename pattern, string equality,
//! and lexicographic order over `Seq<char>`, each with an executable
//! counterpart proved against the specification.

use vstd::prelude::*;

verus! {

/// A decimal digit, as the note-filename pattern understands it.
pub open spec fn is_digit_char(c: char) -> bool {
    '0' <= c && c <= '9'
}

/// A filename stem of the exact shape `YYYY-MM-DD`: four digits, a dash,
/// two digits, a dash, two digits, and nothing else.
pub open spec fn is_date_stem(s: Seq<char>) -> bool {
    &&& s.len() == 10
    &&& forall|i: int| 0 <= i < 10 && i != 4 && i != 7 ==> is_digit_char(#[trigger] s[i])
    &&& s[4] == '-'
    &&& s[7] == '-'
}

/// Decides whether a filename stem has the date shape `is_date_stem` asks for.
pub fn is_date_stem_str(s: &str) -> (r: bool)
    ensures
        r == is_date_stem(s@),
{
    let n = s.unicode_len();
    if n != 10 {
        return false;
    }
    let mut i: usize = 0;
    while i < 10
        invariant
            0 <= i <= 10,
            s@.len() == 10,
            forall|j: int| 0 <= j < i && j != 4 && j != 7 ==> is_digit_char(#[trigger] s@[j]),
            i > 4 ==> s@[4] == '-',
            i > 7 ==> s@[7] == '-',
        decreases 10 - i,
    {
        let c = s.get_char(i);
        if i == 4 || i == 7 {
            if c != '-' {
                return false;
            }
        } else {
            if c < '0' || c > '9' {
                return false;
            }
        }
        i += 1;
    }
    true
}

/// Decides whether two strings hold the same characters.
pub fn str_eq(a: &str, b: &str) -> (r: bool)
    ensures
        r == (a@ == b@),
{
    let alen = a.unicode_len();
    let blen = b.unicode_len();
    if alen != blen {
        return false;
    }
    let mut i: usize = 0;
    while i < alen
        invariant
            alen == a@.len(),
            blen == b@.len(),
            alen == blen,
            0 <= i <= alen,
            forall|j: int| 0 <= j < i ==> a@[j] == b@[j],
        decreases alen - i,
    {
        if a.get_char(i) != b.get_char(i) {
            return false;
        }
        i += 1;
    }
    proof {
        assert(a@ =~= b@);
    }
    true
}

/// Lexicographic order on character sequences: `a` sorts no later than `b`.
pub open spec fn lex_le(a: Seq<char>, b: Seq<char>) -> bool
    decreases a.len(),
{
    if a.len() == 0 {
        true
    } else if b.len() == 0 {
        false
    } else if a[0] < b[0] {
        true
    } else if b[0] < a[0] {
        false
    } else {
        lex_le(a.drop_first(), b.drop_first())
    }
}

/// Lexicographic order is reflexive.
pub proof fn lemma_lex_le_refl(a: Seq<char>)
    ensures
        lex_le(a, a),
    decreases a.len(),
{
    if a.len() > 0 {
        lemma_lex_le_refl(a.drop_first());
    }
}

/// Any two character sequences are lexicographically ordered one way or
/// the other.
pub proof fn lemma_lex_le_total(a: Seq<char>, b: Seq<char>)
    ensures
        lex_le(a, b) || lex_le(b, a),
    decreases a.len(),
{
    if a.len() > 0 && b.len() > 0 && !(a[0] < b[0]) && !(b[0] < a[0]) {
        lemma_lex_le_total(a.drop_first(), b.drop_first());
    }
}

/// Lexicographic order is transitive.
pub proof fn lemma_lex_le_trans(a: Seq<char>, b: Seq<char>, c: Seq<char>)
    requires
        lex_le(a, b),
        lex_le(b, c),
    ensures
        lex_le(a, c),
    decreases a.len(),
{
    if a.len() > 0 && b.len() > 0 && c.len() > 0 && !(a[0] < b[0]) && !(b[0] < a[0]) && !(b[0]
        < c[0]) && !(c[0] < b[0]) {
        lemma_lex_le_trans(a.drop_first(), b.drop_first(), c.drop_first());
    }
}

/// Sequences that agree on their first `i` characters compare the same way
/// as their remainders past `i`.
proof fn lemma_lex_le_skip(a: Seq<char>, b: Seq<char>, i: int)
    requires
        0 <= i <= a.len(),
        i <= b.len(),
        forall|j: int| 0 <= j < i ==> a[j] == b[j],
    ensures
        lex_le(a, b) == lex_le(a.skip(i), b.skip(i)),
    decreases i,
{
    if i == 0 {
        assert(a.skip(0) =~= a);
        assert(b.skip(0) =~= b);
    } else {
        lemma_lex_le_skip(a.drop_first(), b.drop_first(), i - 1);
        assert(a.drop_first().skip(i - 1) =~= a.skip(i));
        assert(b.drop_first().skip(i - 1) =~= b.skip(i));
    }
}

/// A digit character read as a number.
pub open spec fn digit_val(c: char) -> int {
    c as int - '0' as int
}

/// A date stem read as one number, later dates larger: the year, the month
/// and the day, in order of significance.
pub open spec fn stem_date_value(s: Seq<char>) -> int
    recommends
        is_date_stem(s),
{
    (digit_val(s[0]) * 1000 + digit_val(s[1]) * 100 + digit_val(s[2]) * 10 + digit_val(s[3]))
        * 10000 + (digit_val(s[5]) * 10 + digit_val(s[6])) * 100 + (digit_val(s[8]) * 10
        + digit_val(s[9]))
}

/// A sequence that sorts no later than an equally long one either equals it
/// or differs first at a position where its character is smaller.
proof fn lemma_lex_le_first_difference(a: Seq<char>, b: Seq<char>)
    requires
        a.len() == b.len(),
        lex_le(a, b),
    ensures
        a =~= b || exists|i: int|
            #![auto]
            0 <= i < a.len() && a[i] < b[i] && (forall|j: int| 0 <= j < i ==> a[j] == b[j]),
    decreases a.len(),
{
    if a.len() == 0 {
        assert(a =~= b);
    } else if a[0] < b[0] {
        assert(0 <= 0 < a.len() && a[0] < b[0] && (forall|j: int| 0 <= j < 0 ==> a[j] == b[j]));
    } else {
        lemma_lex_le_first_difference(a.drop_first(), b.drop_first());
        if a.drop_first() =~= b.drop_first() {
            assert(a[0] == b[0]);
            assert forall|k: int| 0 <= k < a.len() implies a[k] == b[k] by {
                if k > 0 {
                    assert(a[k] == a.drop_first()[k - 1]);
                    assert(b[k] == b.drop_first()[k - 1]);
                }
            }
            assert(a =~= b);
        } else {
            let k = choose|i: int|
                #![auto]
                0 <= i < a.drop_first().len() && a.drop_first()[i] < b.drop_first()[i] && (
                forall|j: int| 0 <= j < i ==> a.drop_first()[j] == b.drop_first()[j]);
            assert(a[k + 1] < b[k + 1]);
            assert(forall|j: int| 0 <= j < k + 1 ==> a[j] == b[j]) by {
                assert(forall|j: int| 1 <= j < k + 1 ==> a[j] == a.drop_first()[j - 1]);
                assert(forall|j: int| 1 <= j < k + 1 ==> b[j] == b.drop_first()[j - 1]);
            }
        }
    }
}

/// Two date stems that first differ at a position where the first holds the
/// smaller digit name dates in strictly increasing order: every position of
/// lower significance is bounded by the weight of the differing one.
proof fn lemma_first_difference_dates(a: Seq<char>, b: Seq<char>, i: int)
    requires
        is_date_stem(a),
        is_date_stem(b),
        0 <= i < 10,
        a[i] < b[i],
        forall|j: int| 0 <= j < i ==> a[j] == b[j],
    ensures
        stem_date_value(a) < stem_date_value(b),
{
    assert forall|j: int| 0 <= j < 10 && j != 4 && j != 7 implies 0 <= digit_val(#[trigger] a[j])
        <= 9 && 0 <= digit_val(#[trigger] b[j]) <= 9 by {
        assert(is_digit_char(a[j]) && is_digit_char(b[j]));
    }
    assert(i != 4 && i != 7);
    assert(digit_val(a[i]) < digit_val(b[i]));
}

/// On date-shaped stems, the lexicographic order used to pick the most
/// recent note agrees with chronological order: the fixed-width,
/// zero-padded fields compare as the dates they name do.
pub proof fn lemma_lex_le_is_chronological(a: Seq<char>, b: Seq<char>)
    requires
        is_date_stem(a),
        is_date_stem(b),
    ensures
        lex_le(a, b) <==> stem_date_value(a) <= stem_date_value(b),
{
    if lex_le(a, b) {
        lemma_lex_le_first_difference(a, b);
        if !(a =~= b) {
            let i = choose|i: int|
                #![auto]
                0 <= i < a.len() && a[i] < b[i] && (forall|j: int| 0 <= j < i ==> a[j] == b[j]);
            lemma_first_difference_dates(a, b, i);
        }
    }
    if !lex_le(a, b) {
        lemma_lex_le_total(a, b);
        lemma_lex_le_first_difference(b, a);
        if b =~= a {
            lemma_lex_le_refl(a);
        } else {
            let i = choose|i: int|
                #![auto]
                0 <= i < b.len() && b[i] < a[i] && (forall|j: int| 0 <= j < i ==> b[j] == a[j]);
            lemma_first_difference_dates(b, a, i);
        }
    }
}

/// Decides the lexicographic order `lex_le` on two strings.
pub fn lex_le_str(a: &str, b: &str) -> (r: bool)
    ensures
        r == lex_le(a@, b@),
{
    let alen = a.unicode_len();
    let blen = b.unicode_len();
    let mut i: usize = 0;
    loop
        invariant
            alen == a@.len(),
            blen == b@.len(),
            0 <= i <= alen,
            i <= blen,
            forall|j: int| 0 <= j < i ==> a@[j] == b@[j],
        decreases alen - i,
    {
        if i == alen {
            proof {
                lemma_lex_le_skip(a@, b@, i as int);
            }
            return true;
        }
        if i == blen {
            proof {
                lemma_lex_le_skip(a@, b@, i as int);
                assert(a@.skip(i as int).len() > 0);
            }
            return false;
        }
        let ca = a.get_char(i);
        let cb = b.get_char(i);
        if ca < cb {
            proof {
                lemma_lex_le_skip(a@, b@, i as int);
                assert(a@.skip(i as int)[0] == a@[i as int]);
                assert(b@.skip(i as int)[0] == b@[i as int]);
            }
            return true;
        }
        if cb < ca {
            proof {
                lemma_lex_le_skip(a@, b@, i as int);
                assert(a@.skip(i as int)[0] == a@[i as int]);
                assert(b@.skip(i as int)[0] == b@[i as int]);
            }
            return false;
        }
        i += 1;
    }
}

} // verus!
