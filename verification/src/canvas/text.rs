//! Plain-text building blocks for the canvas encoder and parser: decimal
//! representations of numbers and whitespace-separated tokens, with the
//! facts that make the encode/parse round trip provable.

use vstd::prelude::*;
use vstd::string::StrSliceExecFns;
use vstd::string::StringExecFns;

verus! {

/// The character for one decimal digit.
pub open spec fn dec_digit(d: int) -> char {
    if d == 0 {
        '0'
    } else if d == 1 {
        '1'
    } else if d == 2 {
        '2'
    } else if d == 3 {
        '3'
    } else if d == 4 {
        '4'
    } else if d == 5 {
        '5'
    } else if d == 6 {
        '6'
    } else if d == 7 {
        '7'
    } else if d == 8 {
        '8'
    } else {
        '9'
    }
}

/// Whether `c` is a decimal digit.
pub open spec fn is_digit(c: char) -> bool {
    48 <= c as u32 <= 57
}

/// The numeric value of a digit character.
pub open spec fn digit_val(c: char) -> int {
    c as u32 - 48
}

/// The usual decimal representation of `n`: no sign, no leading zeros.
pub open spec fn dec_rep(n: nat) -> Seq<char>
    decreases n,
{
    if n < 10 {
        seq![dec_digit(n as int)]
    } else {
        dec_rep(n / 10) + seq![dec_digit((n % 10) as int)]
    }
}

/// A nonempty run of decimal digits.
pub open spec fn is_dec_token(t: Seq<char>) -> bool {
    t.len() >= 1 && forall|i: int| 0 <= i < t.len() ==> is_digit(#[trigger] t[i])
}

/// The numeric value of a run of decimal digits.
pub open spec fn token_val(t: Seq<char>) -> int
    decreases t.len(),
{
    if t.len() == 0 {
        0
    } else {
        token_val(t.drop_last()) * 10 + digit_val(t.last())
    }
}

/// The decimal representation is a digit token.
pub proof fn lemma_dec_rep_is_token(n: nat)
    ensures
        is_dec_token(dec_rep(n)),
        dec_rep(n).len() >= 1,
    decreases n,
{
    if n < 10 {
        assert(is_digit(dec_rep(n)[0]));
    } else {
        lemma_dec_rep_is_token(n / 10);
        assert(is_digit(dec_digit((n % 10) as int)));
        assert forall|i: int| 0 <= i < dec_rep(n).len() implies is_digit(
            #[trigger] dec_rep(n)[i],
        ) by {
            if i < dec_rep(n / 10).len() {
                assert(dec_rep(n)[i] == dec_rep(n / 10)[i]);
            } else {
                assert(dec_rep(n)[i] == dec_digit((n % 10) as int));
            }
        }
    }
}

/// Reading the decimal representation back gives the number: the decimal
/// representation is lossless.
pub proof fn lemma_dec_rep_val(n: nat)
    ensures
        token_val(dec_rep(n)) == n,
    decreases n,
{
    if n < 10 {
        let t = dec_rep(n);
        assert(t.drop_last() =~= Seq::<char>::empty());
        assert(token_val(Seq::<char>::empty()) == 0);
        assert(digit_val(dec_digit(n as int)) == n);
    } else {
        assert(token_val(Seq::<char>::empty()) == 0);
        lemma_dec_rep_val(n / 10);
        let t = dec_rep(n);
        assert(t.drop_last() =~= dec_rep(n / 10));
        assert(t.last() == dec_digit((n % 10) as int));
        assert(digit_val(dec_digit((n % 10) as int)) == n % 10);
        assert(n == (n / 10) * 10 + n % 10);
    }
}

/// How many digits small numbers have.
pub proof fn lemma_dec_rep_len(n: nat)
    ensures
        dec_rep(n).len() >= 1,
        n < 10 ==> dec_rep(n).len() == 1,
        n < 100 ==> dec_rep(n).len() <= 2,
        n < 1000 ==> dec_rep(n).len() <= 3,
{
    if n >= 10 {
        if n < 100 {
            assert(dec_rep(n / 10).len() == 1);
        } else if n < 1000 {
            assert(dec_rep(n / 10 / 10).len() == 1);
        }
        if n / 10 >= 10 {
            assert(dec_rep(n / 10) == dec_rep(n / 10 / 10) + seq![
                dec_digit((n / 10 % 10) as int),
            ]);
        }
    }
}

/// A digit prefix of a digit token never exceeds the whole token's value.
pub proof fn lemma_token_val_prefix_le(t: Seq<char>, k: int)
    requires
        0 <= k <= t.len(),
        forall|i: int| 0 <= i < t.len() ==> is_digit(#[trigger] t[i]),
    ensures
        0 <= token_val(t.take(k)) <= token_val(t),
    decreases t.len() - k,
{
    lemma_token_val_nonneg(t.take(k));
    if k < t.len() {
        assert(t.take(k + 1).drop_last() =~= t.take(k));
        assert(t.take(k + 1).last() == t[k]);
        assert(token_val(t.take(k + 1)) == token_val(t.take(k)) * 10 + digit_val(t[k]));
        assert(token_val(t.take(k)) * 10 >= token_val(t.take(k))) by (nonlinear_arith)
            requires
                token_val(t.take(k)) >= 0,
        ;
        lemma_token_val_prefix_le(t, k + 1);
    } else {
        assert(t.take(k) =~= t);
    }
}

/// The value of a digit token is nonnegative.
pub proof fn lemma_token_val_nonneg(t: Seq<char>)
    requires
        forall|i: int| 0 <= i < t.len() ==> is_digit(#[trigger] t[i]),
    ensures
        token_val(t) >= 0,
    decreases t.len(),
{
    if t.len() > 0 {
        lemma_token_val_nonneg(t.drop_last());
        assert(token_val(t.drop_last()) * 10 >= 0) by (nonlinear_arith)
            requires
                token_val(t.drop_last()) >= 0,
        ;
        assert(is_digit(t.last()));
    }
}

/// A digit is never whitespace.
pub proof fn lemma_digits_not_ws(t: Seq<char>)
    requires
        forall|i: int| 0 <= i < t.len() ==> is_digit(#[trigger] t[i]),
    ensures
        forall|i: int| 0 <= i < t.len() ==> !is_ws(#[trigger] t[i]),
{
    assert forall|i: int| 0 <= i < t.len() implies !is_ws(#[trigger] t[i]) by {
        let c = t[i];
        if c == ' ' {
            assert(c as u32 == 32);
        } else if c == '\n' {
            assert(c as u32 == 10);
        } else if c == '\t' {
            assert(c as u32 == 9);
        } else if c == '\r' {
            assert(c as u32 == 13);
        }
    }
}

/// Whether `c` separates tokens: the whitespace of the text format.
pub open spec fn is_ws(c: char) -> bool {
    c == ' ' || c == '\n' || c == '\t' || c == '\r'
}

/// The leading maximal run of non-whitespace characters of `s`.
pub open spec fn first_token(s: Seq<char>) -> Seq<char>
    decreases s.len(),
{
    if s.len() == 0 || is_ws(s[0]) {
        Seq::empty()
    } else {
        seq![s[0]] + first_token(s.skip(1))
    }
}

/// The first token of a non-whitespace-led text is nonempty and no longer
/// than the text, and consists of non-whitespace characters.
pub proof fn lemma_first_token(s: Seq<char>)
    requires
        s.len() > 0,
        !is_ws(s[0]),
    ensures
        1 <= first_token(s).len() <= s.len(),
        forall|i: int| 0 <= i < first_token(s).len() ==> !is_ws(#[trigger] first_token(s)[i]),
    decreases s.len(),
{
    let rest = s.skip(1);
    if rest.len() > 0 && !is_ws(rest[0]) {
        lemma_first_token(rest);
    } else {
        assert(first_token(rest) =~= Seq::<char>::empty());
    }
    assert(first_token(s) == seq![s[0]] + first_token(rest));
    assert forall|i: int| 0 <= i < first_token(s).len() implies !is_ws(
        #[trigger] first_token(s)[i],
    ) by {
        if i >= 1 {
            assert(first_token(s)[i] == first_token(rest)[i - 1]);
        }
    }
}

/// The maximal whitespace-separated tokens of `s`, in order.
pub open spec fn tokens(s: Seq<char>) -> Seq<Seq<char>>
    decreases s.len(),
    via tokens_decreases
{
    if s.len() == 0 {
        Seq::empty()
    } else if is_ws(s[0]) {
        tokens(s.skip(1))
    } else {
        seq![first_token(s)] + tokens(s.skip(first_token(s).len() as int))
    }
}

#[via_fn]
proof fn tokens_decreases(s: Seq<char>) {
    if s.len() > 0 && !is_ws(s[0]) {
        lemma_first_token(s);
    }
}

/// A leading whitespace character does not change the tokens.
pub proof fn lemma_tokens_prepend_ws(c: char, s: Seq<char>)
    requires
        is_ws(c),
    ensures
        tokens(seq![c] + s) == tokens(s),
{
    assert((seq![c] + s).skip(1) =~= s);
}

/// The first token of a text that starts with a nonempty non-whitespace
/// block followed by whitespace (or nothing) is exactly that block.
pub proof fn lemma_first_token_of_block(t: Seq<char>, s: Seq<char>)
    requires
        t.len() >= 1,
        forall|i: int| 0 <= i < t.len() ==> !is_ws(#[trigger] t[i]),
        s.len() == 0 || is_ws(s[0]),
    ensures
        first_token(t + s) == t,
    decreases t.len(),
{
    let u = t + s;
    assert(u[0] == t[0]);
    if t.len() == 1 {
        assert(u.skip(1) =~= s);
        assert(first_token(s) =~= Seq::<char>::empty());
        assert(first_token(u) =~= t);
    } else {
        assert(u.skip(1) =~= t.skip(1) + s);
        lemma_first_token_of_block(t.skip(1), s);
        assert(first_token(u) =~= seq![t[0]] + first_token(t.skip(1) + s));
        assert(seq![t[0]] + t.skip(1) =~= t);
    }
}

/// Prepending a nonempty non-whitespace block followed by whitespace (or
/// nothing) prepends exactly one token.
pub proof fn lemma_tokens_prepend_block(t: Seq<char>, s: Seq<char>)
    requires
        t.len() >= 1,
        forall|i: int| 0 <= i < t.len() ==> !is_ws(#[trigger] t[i]),
        s.len() == 0 || is_ws(s[0]),
    ensures
        tokens(t + s) == seq![t] + tokens(s),
{
    let u = t + s;
    lemma_first_token_of_block(t, s);
    assert(u.skip(first_token(u).len() as int) =~= s);
}

/// Builds the decimal text of `n` (no sign, no leading zeros).
pub fn decimal_string(n: u64) -> (s: String)
    ensures
        s@ == dec_rep(n as nat),
    decreases n,
{
    if n < 10 {
        digit_string(n)
    } else {
        let mut s = decimal_string(n / 10);
        let d = digit_string(n % 10);
        s.append(d.as_str());
        s
    }
}

/// The one-character text of a single decimal digit.
fn digit_string(d: u64) -> (s: String)
    requires
        d < 10,
    ensures
        s@ == seq![dec_digit(d as int)],
{
    let lit: &str = if d == 0 {
        "0"
    } else if d == 1 {
        "1"
    } else if d == 2 {
        "2"
    } else if d == 3 {
        "3"
    } else if d == 4 {
        "4"
    } else if d == 5 {
        "5"
    } else if d == 6 {
        "6"
    } else if d == 7 {
        "7"
    } else if d == 8 {
        "8"
    } else {
        "9"
    };
    proof {
        reveal_strlit("0");
        reveal_strlit("1");
        reveal_strlit("2");
        reveal_strlit("3");
        reveal_strlit("4");
        reveal_strlit("5");
        reveal_strlit("6");
        reveal_strlit("7");
        reveal_strlit("8");
        reveal_strlit("9");
        assert(lit@ =~= seq![dec_digit(d as int)]);
    }
    lit.to_owned()
}

/// Whether `c` separates tokens.
pub fn ws_char(c: char) -> (r: bool)
    ensures
        r == is_ws(c),
{
    c == ' ' || c == '\n' || c == '\t' || c == '\r'
}

/// Splits `s` into its maximal whitespace-separated tokens, in order.
pub fn tokenize(s: &str) -> (toks: Vec<String>)
    ensures
        toks.deep_view() == tokens(s@),
{
    let n = s.unicode_len();
    let mut toks: Vec<String> = Vec::new();
    let mut i: usize = 0;
    proof {
        assert(toks.deep_view() =~= Seq::<Seq<char>>::empty());
        assert(s@.skip(0) =~= s@);
        assert(toks.deep_view() + tokens(s@) =~= tokens(s@));
    }
    while i < n
        invariant
            i <= n,
            n == s@.len(),
            tokens(s@) == toks.deep_view() + tokens(s@.skip(i as int)),
        decreases n - i,
    {
        let c = s.get_char(i);
        if ws_char(c) {
            proof {
                let rest = s@.skip(i as int);
                lemma_tokens_prepend_ws(rest[0], rest.skip(1));
                assert(seq![rest[0]] + rest.skip(1) =~= rest);
                assert(rest.skip(1) =~= s@.skip(i + 1));
            }
            i = i + 1;
        } else {
            let start = i;
            i = i + 1;
            while i < n && !ws_char(s.get_char(i))
                invariant
                    start < i <= n,
                    n == s@.len(),
                    forall|k: int| start <= k < i ==> !is_ws(#[trigger] s@[k]),
                decreases n - i,
            {
                i = i + 1;
            }
            let tok = s.substring_char(start, i);
            let ghost dprev = toks.deep_view();
            let ghost t = s@.subrange(start as int, i as int);
            proof {
                let rest = s@.skip(i as int);
                lemma_tokens_prepend_block(t, rest);
                assert(t + rest =~= s@.skip(start as int));
            }
            toks.push(tok.to_owned());
            proof {
                let rest = s@.skip(i as int);
                assert(toks.deep_view() =~= dprev.push(t));
                assert(dprev.push(t) + tokens(rest) =~= dprev + (seq![t] + tokens(rest)));
            }
        }
    }
    proof {
        assert(s@.skip(n as int) =~= Seq::<char>::empty());
        assert(toks.deep_view() + Seq::<Seq<char>>::empty() =~= toks.deep_view());
    }
    toks
}

/// Reads a digit token as a number. Returns the token's value when the
/// token is a nonempty run of digits whose value fits in the integer type,
/// and nothing otherwise.
pub fn parse_decimal(t: &str) -> (r: Option<u64>)
    ensures
        r is Some <==> is_dec_token(t@) && token_val(t@) <= u64::MAX,
        r matches Some(v) ==> v == token_val(t@),
{
    let n = t.unicode_len();
    if n == 0 {
        return None;
    }
    let mut val: u64 = 0;
    let mut i: usize = 0;
    while i < n
        invariant
            i <= n,
            n == t@.len(),
            forall|k: int| 0 <= k < i ==> is_digit(#[trigger] t@[k]),
            val == token_val(t@.take(i as int)),
        decreases n - i,
    {
        let c = t.get_char(i);
        let code: u32 = c as u32;
        proof {
            assert(t@.take(i + 1).drop_last() =~= t@.take(i as int));
            assert(t@.take(i + 1).last() == t@[i as int]);
        }
        if code < 48 || code > 57 {
            return None;
        }
        let d: u64 = (code - 48) as u64;
        let scaled = match val.checked_mul(10) {
            Some(s) => s,
            None => {
                proof {
                    lemma_parse_overflow(t@, i as int);
                }
                return None;
            },
        };
        let bumped = match scaled.checked_add(d) {
            Some(s) => s,
            None => {
                proof {
                    lemma_parse_overflow(t@, i as int);
                }
                return None;
            },
        };
        val = bumped;
        i = i + 1;
    }
    proof {
        assert(t@.take(n as int) =~= t@);
    }
    Some(val)
}

/// If the running value of the digits read so far would exceed the integer
/// type at position `i`, the whole token is no valid bounded number.
proof fn lemma_parse_overflow(t: Seq<char>, i: int)
    requires
        0 <= i < t.len(),
        forall|k: int| 0 <= k < i ==> is_digit(#[trigger] t[k]),
        is_digit(t[i]),
        token_val(t.take(i)) * 10 + digit_val(t[i]) > u64::MAX,
    ensures
        !(is_dec_token(t) && token_val(t) <= u64::MAX),
{
    if is_dec_token(t) {
        assert(t.take(i + 1).drop_last() =~= t.take(i));
        assert(t.take(i + 1).last() == t[i]);
        lemma_token_val_prefix_le(t, i + 1);
    }
}

/// Powers of ten.
pub open spec fn pow10(k: nat) -> nat
    decreases k,
{
    if k == 0 {
        1
    } else {
        10 * pow10((k - 1) as nat)
    }
}

/// Powers of ten are positive.
pub proof fn lemma_pow10_pos(k: nat)
    ensures
        pow10(k) >= 1,
    decreases k,
{
    if k > 0 {
        lemma_pow10_pos((k - 1) as nat);
    }
}

/// A number below the `k`-th power of ten has at most `k` digits.
pub proof fn lemma_dec_rep_len_bounded(n: nat, k: nat)
    requires
        k >= 1,
        n < pow10(k),
    ensures
        dec_rep(n).len() <= k,
    decreases k,
{
    if n >= 10 {
        assert(pow10(1) == 10 * pow10(0));
        assert(pow10(0) == 1);
        let km1 = (k - 1) as nat;
        lemma_pow10_pos(km1);
        assert(pow10(k) == 10 * pow10(km1));
        assert(n / 10 < pow10(km1)) by (nonlinear_arith)
            requires
                n < 10 * pow10(km1),
                pow10(km1) >= 1,
                n >= 10,
        ;
        lemma_dec_rep_len_bounded(n / 10, km1);
    }
}

/// A number that fits in 64 bits has at most 20 decimal digits.
pub proof fn lemma_dec_rep_len_u64(n: nat)
    requires
        n <= u64::MAX,
    ensures
        dec_rep(n).len() <= 20,
{
    reveal_with_fuel(pow10, 21);
    assert(pow10(20) > u64::MAX);
    lemma_dec_rep_len_bounded(n, 20);
}

/// Reading `s` with `cur` characters already on the current output line:
/// holds when no line of `s` — the last, unterminated one included — ever
/// grows beyond `bound` characters.
pub open spec fn lines_within(s: Seq<char>, cur: int, bound: int) -> bool
    decreases s.len(),
{
    if s.len() == 0 {
        cur <= bound
    } else if s[0] == '\n' {
        cur <= bound && lines_within(s.skip(1), 0, bound)
    } else {
        lines_within(s.skip(1), cur + 1, bound)
    }
}

/// A newline-free prefix only lengthens the current line.
pub proof fn lemma_lines_within_prefix(a: Seq<char>, b: Seq<char>, cur: int, bound: int)
    requires
        forall|i: int| 0 <= i < a.len() ==> a[i] != '\n',
    ensures
        lines_within(a + b, cur, bound) <==> lines_within(b, cur + a.len(), bound),
    decreases a.len(),
{
    if a.len() == 0 {
        assert(a + b =~= b);
    } else {
        assert((a + b)[0] == a[0]);
        assert((a + b).skip(1) =~= a.skip(1) + b);
        lemma_lines_within_prefix(a.skip(1), b, cur + 1, bound);
    }
}

/// A newline closes the current line and starts an empty one.
pub proof fn lemma_lines_within_newline(b: Seq<char>, cur: int, bound: int)
    ensures
        lines_within(seq!['\n'] + b, cur, bound) <==> (cur <= bound && lines_within(b, 0, bound)),
{
    assert((seq!['\n'] + b).skip(1) =~= b);
}


} // verus!
