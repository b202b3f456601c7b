//! Small string helpers shared by the order-system types.

use vstd::prelude::*;
use vstd::std_specs::iter::IteratorSpec;
use vstd::string::StringExecFns;

verus! {

/// Unicode `White_Space` property of a character, as `char::is_whitespace`
/// and `str::trim` decide it: the 25 code points U+0009 to U+000D, U+0020,
/// U+0085, U+00A0, U+1680, U+2000 to U+200A, U+2028, U+2029, U+202F, U+205F
/// and U+3000.
pub open spec fn unicode_white_space(c: char) -> bool {
    let u = c as int;
    ||| 0x09 <= u <= 0x0d
    ||| u == 0x20
    ||| u == 0x85
    ||| u == 0xa0
    ||| u == 0x1680
    ||| 0x2000 <= u <= 0x200a
    ||| u == 0x2028
    ||| u == 0x2029
    ||| u == 0x202f
    ||| u == 0x205f
    ||| u == 0x3000
}

/// `t` is `s` with its leading and trailing whitespace removed.
pub open spec fn trimmed(s: Seq<char>, t: Seq<char>) -> bool {
    exists|i: int, j: int|
        #![trigger s.subrange(i, j)]
        0 <= i <= j <= s.len() && t == s.subrange(i, j) && (forall|k: int|
            0 <= k < i ==> unicode_white_space(#[trigger] s[k])) && (forall|k: int|
            j <= k < s.len() ==> unicode_white_space(#[trigger] s[k])) && (i < j
            ==> !unicode_white_space(s[i]) && !unicode_white_space(s[j - 1]))
}

/// Every character of `s` is whitespace (the empty string included).
pub open spec fn is_blank_spec(s: Seq<char>) -> bool {
    forall|k: int| 0 <= k < s.len() ==> unicode_white_space(#[trigger] s[k])
}

/// `str::trim`: the string slice without leading and trailing Unicode
/// whitespace.
#[verifier::external_body]
fn trim<'a>(s: &'a str) -> (r: &'a str)
    ensures
        trimmed(s@, r@),
        r@.len() > 0 ==> !unicode_white_space(r@[0]) && !unicode_white_space(r@.last()),
{
    s.trim()
}

/// Whether a symbol or currency code is empty or whitespace only
/// (`s.trim().is_empty()`).
pub fn is_blank(s: &str) -> (r: bool)
    ensures
        r == is_blank_spec(s@),
{
    let t = trim(s);
    let r = t.is_empty();
    proof {
        let (i, j) = choose|i: int, j: int|
            0 <= i <= j <= s@.len() && t@ == s@.subrange(i, j) && (forall|k: int|
                0 <= k < i ==> unicode_white_space(#[trigger] s@[k])) && (forall|k: int|
                j <= k < s@.len() ==> unicode_white_space(#[trigger] s@[k])) && (i < j
                ==> !unicode_white_space(s@[i]) && !unicode_white_space(s@[j - 1]));
        if i == j {
            assert forall|k: int| 0 <= k < s@.len() implies unicode_white_space(#[trigger] s@[k]) by {
                if k >= i {
                }
            }
        } else {
            assert(!unicode_white_space(s@[i]));
        }
    }
    r
}

/// Whether two strings hold the same characters.
pub(crate) fn str_eq(a: &str, b: &str) -> (r: bool)
    ensures
        r == (a@ == b@),
{
    let mut ia = a.chars();
    let mut ib = b.chars();
    loop
        invariant
            ia.obeys_prophetic_iter_laws(),
            ib.obeys_prophetic_iter_laws(),
            ia.decrease() is Some,
            (a@ == b@) == (ia.remaining() == ib.remaining()),
        decreases ia.decrease()->0,
    {
        let ghost ra = ia.remaining();
        let ghost rb = ib.remaining();
        let na = ia.next();
        let nb = ib.next();
        match (na, nb) {
            (None, None) => {
                assert(ra =~= rb);
                return true;
            },
            (None, Some(_)) => {
                assert(ra.len() != rb.len());
                return false;
            },
            (Some(_), None) => {
                assert(ra.len() != rb.len());
                return false;
            },
            (Some(ca), Some(cb)) => {
                if ca != cb {
                    assert(ra[0] != rb[0]);
                    return false;
                }
                assert((ra == rb) == (ia.remaining() == ib.remaining())) by {
                    if ia.remaining() =~= ib.remaining() {
                        assert(ra =~= rb) by {
                            assert forall|k: int| 0 <= k < ra.len() implies ra[k] == rb[k] by {
                                if k > 0 {
                                    assert(ra[k] == ia.remaining()[k - 1]);
                                    assert(rb[k] == ib.remaining()[k - 1]);
                                }
                            }
                        }
                    }
                    if ra == rb {
                        assert(ia.remaining() =~= ib.remaining()) by {
                            assert forall|k: int| 0 <= k < ia.remaining().len() implies ia.remaining()[k] == ib.remaining()[k] by {
                                assert(ra[k + 1] == ia.remaining()[k]);
                                assert(rb[k + 1] == ib.remaining()[k]);
                            }
                        }
                    }
                }
            },
        }
    }
}

/// `a` sorts strictly before `b`: lexicographic order by character code
/// point, a proper prefix first (the order of `str`'s `<`).
pub open spec fn char_seq_lt(a: Seq<char>, b: Seq<char>) -> bool
    decreases a.len(),
{
    if a.len() == 0 {
        b.len() > 0
    } else if b.len() == 0 {
        false
    } else if (a[0] as int) < (b[0] as int) {
        true
    } else if a[0] == b[0] {
        char_seq_lt(a.drop_first(), b.drop_first())
    } else {
        false
    }
}

/// No sequence sorts before itself.
pub proof fn lemma_char_seq_lt_irreflexive(a: Seq<char>)
    ensures
        !char_seq_lt(a, a),
    decreases a.len(),
{
    if a.len() > 0 {
        lemma_char_seq_lt_irreflexive(a.drop_first());
    }
}

/// [`char_seq_lt`] is transitive.
pub proof fn lemma_char_seq_lt_transitive(a: Seq<char>, b: Seq<char>, c: Seq<char>)
    requires
        char_seq_lt(a, b),
        char_seq_lt(b, c),
    ensures
        char_seq_lt(a, c),
    decreases a.len(),
{
    if a.len() > 0 && b.len() > 0 && c.len() > 0 && a[0] == b[0] && b[0] == c[0] {
        lemma_char_seq_lt_transitive(a.drop_first(), b.drop_first(), c.drop_first());
    }
}

/// Two different sequences are ordered one way or the other.
pub proof fn lemma_char_seq_lt_total(a: Seq<char>, b: Seq<char>)
    requires
        a != b,
    ensures
        char_seq_lt(a, b) || char_seq_lt(b, a),
    decreases a.len(),
{
    if a.len() > 0 && b.len() > 0 {
        if a[0] == b[0] {
            if a.drop_first() == b.drop_first() {
                assert(a =~= seq![a[0]].add(a.drop_first()));
                assert(b =~= seq![b[0]].add(b.drop_first()));
            }
            lemma_char_seq_lt_total(a.drop_first(), b.drop_first());
        } else {
            assert((a[0] as int) != (b[0] as int));
        }
    } else if a.len() == 0 && b.len() == 0 {
        assert(a =~= b);
    }
}

/// Whether `a` sorts strictly before `b` in [`char_seq_lt`] order.
pub fn str_lt(a: &str, b: &str) -> (r: bool)
    ensures
        r == char_seq_lt(a@, b@),
{
    let mut ia = a.chars();
    let mut ib = b.chars();
    loop
        invariant
            ia.obeys_prophetic_iter_laws(),
            ib.obeys_prophetic_iter_laws(),
            ia.decrease() is Some,
            char_seq_lt(a@, b@) == char_seq_lt(ia.remaining(), ib.remaining()),
        decreases ia.decrease()->0,
    {
        let na = ia.next();
        let nb = ib.next();
        match (na, nb) {
            (None, None) => return false,
            (None, Some(_)) => return true,
            (Some(_), None) => return false,
            (Some(ca), Some(cb)) => {
                if ca < cb {
                    return true;
                }
                if ca != cb {
                    return false;
                }
            },
        }
    }
}

/// Decimal digit character of `d`, for `0 <= d < 10`.
pub open spec fn digit_char(d: int) -> char {
    if d == 0 {
        '0'
    } else if d == 1 {
        '1'
    } else if d == 2 {
        '2'
    } else if d == 3 {
        '3'
    } else if d == 4 {
        '4'
    } else if d == 5 {
        '5'
    } else if d == 6 {
        '6'
    } else if d == 7 {
        '7'
    } else if d == 8 {
        '8'
    } else {
        '9'
    }
}

/// Decimal text of `n` as integer `Display` writes it: no sign, no
/// leading zeros.
pub open spec fn digits_of(n: nat) -> Seq<char>
    decreases n,
{
    if n < 10 {
        seq![digit_char(n as int)]
    } else {
        digits_of(n / 10) + seq![digit_char((n % 10) as int)]
    }
}

/// The one-character text of digit `d`.
fn digit_str(d: u64) -> (r: &'static str)
    requires
        d < 10,
    ensures
        r@ == seq![digit_char(d as int)],
{
    proof {
        reveal_strlit("0");
        reveal_strlit("1");
        reveal_strlit("2");
        reveal_strlit("3");
        reveal_strlit("4");
        reveal_strlit("5");
        reveal_strlit("6");
        reveal_strlit("7");
        reveal_strlit("8");
        reveal_strlit("9");
    }
    if d == 0 {
        "0"
    } else if d == 1 {
        "1"
    } else if d == 2 {
        "2"
    } else if d == 3 {
        "3"
    } else if d == 4 {
        "4"
    } else if d == 5 {
        "5"
    } else if d == 6 {
        "6"
    } else if d == 7 {
        "7"
    } else if d == 8 {
        "8"
    } else {
        "9"
    }
}

/// Decimal text of an unsigned integer.
pub fn u64_text(n: u64) -> (r: String)
    ensures
        r@ == digits_of(n as nat),
    decreases n,
{
    if n < 10 {
        digit_str(n).to_owned()
    } else {
        let mut s = u64_text(n / 10);
        s.append(digit_str(n % 10));
        s
    }
}

/// Text of the UTC instant `nanos` nanoseconds after the epoch, as
/// `chrono` displays a `DateTime<Utc>`.
pub uninterp spec fn utc_display(nanos: int) -> Seq<char>;

/// `Display` of `chrono::DateTime<Utc>` on the instant built by
/// `DateTime::from_timestamp_nanos` (which accepts every `i64`): the result
/// is named by [`utc_display`] of the nanosecond count; nothing else is
/// claimed of the text.
#[verifier::external_body]
pub(crate) fn utc_text(nanos: i64) -> (r: String)
    ensures
        r@ == utc_display(nanos as int),
{
    chrono::DateTime::<chrono::Utc>::from_timestamp_nanos(nanos).to_string()
}

} // verus!
