use vstd::prelude::*;

verus! {

/// The characters treated as blank space between tokens.
pub open spec fn is_blank(c: char) -> bool {
    c == ' ' || c == '\t' || c == '\n' || c == '\r' || c == '\u{000b}' || c == '\u{000c}'
}

/// The two quote characters that open and close quoted regions.
pub open spec fn is_quote(c: char) -> bool {
    c == '"' || c == '\''
}

/// Exec counterpart of [`is_blank`].
pub fn blank_char(c: char) -> (r: bool)
    ensures
        r == is_blank(c),
{
    c == ' ' || c == '\t' || c == '\n' || c == '\r' || c == '\u{000b}' || c == '\u{000c}'
}

/// Exec counterpart of [`is_quote`].
pub fn quote_char(c: char) -> (r: bool)
    ensures
        r == is_quote(c),
{
    c == '"' || c == '\''
}

/// Relies on `String::push`: appends exactly one character at the end.
#[verifier::external_body]
pub(crate) fn push_char(s: &mut String, c: char)
    ensures
        final(s)@ == old(s)@.push(c),
{
    s.push(c)
}

/// Builds the `String` whose characters are exactly those of `v`.
pub(crate) fn chars_to_string(v: &Vec<char>) -> (s: String)
    ensures
        s@ == v@,
{
    let mut s = String::new();
    let mut i: usize = 0;
    while i < v.len()
        invariant
            i <= v@.len(),
            s@ == v@.take(i as int),
        decreases v@.len() - i,
    {
        push_char(&mut s, v[i]);
        proof {
            assert(v@.take(i as int + 1) =~= v@.take(i as int).push(v@[i as int]));
        }
        i = i + 1;
    }
    proof {
        assert(v@.take(v@.len() as int) =~= v@);
    }
    s
}

/// A decimal digit.
pub open spec fn is_digit(c: char) -> bool {
    '0' as int <= c as int && c as int <= '9' as int
}

/// The numeric value of a digit character.
pub open spec fn digit_val(c: char) -> int {
    c as int - '0' as int
}

/// Whether every character of `s` is a decimal digit.
pub open spec fn all_digits(s: Seq<char>) -> bool {
    forall|i: int| 0 <= i < s.len() ==> is_digit(s[i])
}

/// The value of `s` read as a decimal numeral.
pub open spec fn dec_val(s: Seq<char>) -> int
    decreases s.len(),
{
    if s.len() == 0 {
        0
    } else {
        dec_val(s.drop_last()) * 10 + digit_val(s.last())
    }
}

pub proof fn lemma_dec_val_nonneg(s: Seq<char>)
    requires
        all_digits(s),
    ensures
        0 <= dec_val(s),
    decreases s.len(),
{
    if s.len() > 0 {
        assert(all_digits(s.drop_last()));
        lemma_dec_val_nonneg(s.drop_last());
    }
}

/// Reading more digits never shrinks the value.
pub proof fn lemma_dec_val_prefix_mono(s: Seq<char>, j: int, k: int)
    requires
        all_digits(s),
        0 <= j <= k <= s.len(),
    ensures
        dec_val(s.take(j)) <= dec_val(s.take(k)),
    decreases k - j,
{
    if j < k {
        lemma_dec_val_prefix_mono(s, j, k - 1);
        let p = s.take(k);
        assert(all_digits(p));
        assert(p.drop_last() =~= s.take(k - 1));
        assert(all_digits(p.drop_last()));
        lemma_dec_val_nonneg(p.drop_last());
        assert(dec_val(p) == dec_val(p.drop_last()) * 10 + digit_val(p.last()));
    }
}

/// A type that the accessor layer can parse out of one raw token.
pub trait FromText: View + Sized {
    /// Whether the token denotes a value of the type.
    spec fn text_ok(s: Seq<char>) -> bool;

    /// The (view of the) value the token denotes, when it denotes one.
    spec fn text_view(s: Seq<char>) -> Self::V;

    /// Parses one token.
    fn parse_text(s: &str) -> (r: Option<Self>)
        ensures
            match r {
                Some(v) => Self::text_ok(s@) && v@ == Self::text_view(s@),
                None => !Self::text_ok(s@),
            },
    ;
}

/// Every token is a valid string and parses to itself.
impl FromText for String {
    open spec fn text_ok(s: Seq<char>) -> bool {
        true
    }

    open spec fn text_view(s: Seq<char>) -> Seq<char> {
        s
    }

    fn parse_text(s: &str) -> (r: Option<String>) {
        Some(s.to_owned())
    }
}

/// The spelling of a boolean token.
pub open spec fn bool_text(b: bool) -> Seq<char> {
    if b {
        seq!['t', 'r', 'u', 'e']
    } else {
        seq!['f', 'a', 'l', 's', 'e']
    }
}

/// Booleans: exactly the tokens `true` and `false`.
impl FromText for bool {
    open spec fn text_ok(s: Seq<char>) -> bool {
        s == bool_text(true) || s == bool_text(false)
    }

    open spec fn text_view(s: Seq<char>) -> bool {
        s == bool_text(true)
    }

    fn parse_text(s: &str) -> (r: Option<bool>) {
        let n = s.unicode_len();
        if n == 4 && s.get_char(0) == 't' && s.get_char(1) == 'r' && s.get_char(2) == 'u'
            && s.get_char(3) == 'e' {
            proof {
                assert(s@ =~= bool_text(true));
            }
            Some(true)
        } else if n == 5 && s.get_char(0) == 'f' && s.get_char(1) == 'a' && s.get_char(2) == 'l'
            && s.get_char(3) == 's' && s.get_char(4) == 'e' {
            proof {
                assert(s@ =~= bool_text(false));
            }
            Some(false)
        } else {
            proof {
                if s@ == bool_text(true) {
                    assert(s@.len() == 4);
                    assert(s@[0] == 't' && s@[1] == 'r' && s@[2] == 'u' && s@[3] == 'e');
                }
                if s@ == bool_text(false) {
                    assert(s@.len() == 5);
                    assert(s@[0] == 'f' && s@[1] == 'a' && s@[2] == 'l' && s@[3] == 's' && s@[4]
                        == 'e');
                }
            }
            None
        }
    }
}

/// Unsigned decimals: a nonempty all-digit token whose value fits in `u64`.
impl FromText for u64 {
    open spec fn text_ok(s: Seq<char>) -> bool {
        s.len() > 0 && all_digits(s) && dec_val(s) <= u64::MAX
    }

    open spec fn text_view(s: Seq<char>) -> u64 {
        dec_val(s) as u64
    }

    fn parse_text(s: &str) -> (r: Option<u64>) {
        let n = s.unicode_len();
        if n == 0 {
            return None;
        }
        let mut acc: u64 = 0;
        let mut i: usize = 0;
        while i < n
            invariant
                0 < n == s@.len(),
                i <= n,
                all_digits(s@.take(i as int)),
                acc == dec_val(s@.take(i as int)),
            decreases n - i,
        {
            let c = s.get_char(i);
            let cu = c as u32;
            if cu < '0' as u32 || cu > '9' as u32 {
                assert(!is_digit(s@[i as int]));
                return None;
            }
            let d: u64 = (cu - '0' as u32) as u64;
            proof {
                assert(s@.take(i as int + 1).drop_last() =~= s@.take(i as int));
                assert(s@.take(i as int + 1).last() == s@[i as int]);
                assert(all_digits(s@.take(i as int + 1)));
            }
            let widened = match acc.checked_mul(10) {
                Some(m) => m.checked_add(d),
                None => None,
            };
            match widened {
                Some(v) => {
                    assert(v == dec_val(s@.take(i as int + 1)));
                    acc = v;
                }
                None => {
                    proof {
                        assert(dec_val(s@.take(i as int + 1)) > u64::MAX);
                        if all_digits(s@) {
                            lemma_dec_val_prefix_mono(s@, i as int + 1, s@.len() as int);
                            assert(s@.take(s@.len() as int) =~= s@);
                        }
                    }
                    return None;
                }
            }
            i = i + 1;
        }
        proof {
            assert(s@.take(n as int) =~= s@);
        }
        Some(acc)
    }
}

} // verus!
