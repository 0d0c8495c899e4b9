//! Opaque pagination cursors.
//!
//! A cursor encodes a zero-based absolute index into the upstream's
//! logical result sequence as its decimal numeral. Clients treat cursors
//! as opaque strings; `decode_cursor` accepts exactly the strings that
//! `encode_cursor` produces and rejects everything else.

use vstd::prelude::*;
use vstd::string::StringExecFns;

verus! {

/// Error for a pagination request the client got wrong.
#[derive(Clone, Copy, PartialEq, Eq, Structural, Debug)]
pub enum PaginationError {
    /// The cursor handed in was not produced by this gateway.
    InvalidCursor,
}

/// Is `c` a decimal digit?
pub open spec fn is_digit(c: char) -> bool {
    '0' <= c && c <= '9'
}

/// Numeric value of a digit character.
pub open spec fn digit_val(c: char) -> nat {
    ((c as u32) - ('0' as u32)) as nat
}

/// The digit character for a value below ten.
pub open spec fn char_of_digit(d: nat) -> char {
    if d == 0 {
        '0'
    } else if d == 1 {
        '1'
    } else if d == 2 {
        '2'
    } else if d == 3 {
        '3'
    } else if d == 4 {
        '4'
    } else if d == 5 {
        '5'
    } else if d == 6 {
        '6'
    } else if d == 7 {
        '7'
    } else if d == 8 {
        '8'
    } else {
        '9'
    }
}

/// The decimal numeral of `n`, most significant digit first.
pub open spec fn dec_rep(n: nat) -> Seq<char>
    decreases n,
{
    if n < 10 {
        seq![char_of_digit(n)]
    } else {
        dec_rep(n / 10).push(char_of_digit(n % 10))
    }
}

/// The value of a digit string, most significant digit first.
pub open spec fn val_of(s: Seq<char>) -> nat
    decreases s.len(),
{
    if s.len() == 0 {
        0
    } else {
        val_of(s.drop_last()) * 10 + digit_val(s.last())
    }
}

/// The shape shared by every cursor this gateway issues: a non-empty
/// digit string with no superfluous leading zero.
pub open spec fn cursor_shape(s: Seq<char>) -> bool {
    &&& s.len() >= 1
    &&& forall|i: int| 0 <= i < s.len() ==> is_digit(#[trigger] s[i])
    &&& s.len() > 1 ==> s[0] != '0'
}

proof fn lemma_digit_char_val(d: nat)
    requires
        d < 10,
    ensures
        is_digit(char_of_digit(d)),
        digit_val(char_of_digit(d)) == d,
{
}

proof fn lemma_char_digit_roundtrip(c: char)
    requires
        is_digit(c),
    ensures
        char_of_digit(digit_val(c)) == c,
{
}

/// Every numeral has the cursor shape.
pub proof fn lemma_dec_rep_shape(n: nat)
    ensures
        cursor_shape(dec_rep(n)),
        n >= 1 ==> dec_rep(n)[0] != '0',
    decreases n,
{
    if n < 10 {
        lemma_digit_char_val(n);
    } else {
        lemma_dec_rep_shape(n / 10);
        lemma_digit_char_val(n % 10);
        assert(dec_rep(n)[0] == dec_rep(n / 10)[0]);
    }
}

/// Evaluating a numeral gives back its number.
pub proof fn lemma_val_of_dec_rep(n: nat)
    ensures
        val_of(dec_rep(n)) == n,
    decreases n,
{
    if n < 10 {
        lemma_digit_char_val(n);
        assert(val_of(Seq::<char>::empty()) == 0);
        assert(dec_rep(n).drop_last() =~= Seq::<char>::empty());
    } else {
        lemma_val_of_dec_rep(n / 10);
        lemma_digit_char_val(n % 10);
        assert(dec_rep(n).drop_last() =~= dec_rep(n / 10));
        assert(dec_rep(n).last() == char_of_digit(n % 10));
        assert(val_of(dec_rep(n)) == (n / 10) * 10 + (n % 10));
        vstd::arithmetic::div_mod::lemma_fundamental_div_mod(n as int, 10);
    }
}

/// A digit string that does not start with '0' has a positive value.
proof fn lemma_val_of_positive(s: Seq<char>)
    requires
        s.len() >= 1,
        forall|i: int| 0 <= i < s.len() ==> is_digit(#[trigger] s[i]),
        s[0] != '0',
    ensures
        val_of(s) >= 1,
    decreases s.len(),
{
    if s.len() == 1 {
        assert(digit_val(s.last()) >= 1);
    } else {
        lemma_val_of_positive(s.drop_last());
    }
}

/// A string of cursor shape is the numeral of its own value: `encode`
/// after `decode` gives back the very cursor.
pub proof fn lemma_cursor_canonical(s: Seq<char>)
    requires
        cursor_shape(s),
    ensures
        dec_rep(val_of(s)) == s,
    decreases s.len(),
{
    if s.len() == 1 {
        lemma_char_digit_roundtrip(s[0]);
        assert(s.drop_last() =~= Seq::<char>::empty());
        assert(s.last() == s[0]);
        assert(val_of(Seq::<char>::empty()) == 0);
        assert(val_of(s) == digit_val(s[0]));
        assert(digit_val(s[0]) < 10);
        assert(dec_rep(val_of(s)) == seq![char_of_digit(digit_val(s[0]))]);
        assert(dec_rep(val_of(s)) =~= s);
    } else {
        let pre = s.drop_last();
        assert(pre[0] == s[0]);
        lemma_cursor_canonical(pre);
        lemma_val_of_positive(pre);
        lemma_char_digit_roundtrip(s.last());
        assert(val_of(s) == val_of(pre) * 10 + digit_val(s.last()));
        assert(val_of(s) / 10 == val_of(pre)) by {
            assert(digit_val(s.last()) < 10);
        }
        assert(val_of(s) % 10 == digit_val(s.last()));
        assert(dec_rep(val_of(s)) =~= s);
    }
}

/// The round-trip law for cursors the gateway produced: the numeral of
/// `n` has cursor shape and decodes to `n`, so `decode_cursor` accepts
/// exactly what `encode_cursor` printed and gives the index back.
pub proof fn lemma_cursor_round_trip(n: u64)
    ensures
        cursor_shape(dec_rep(n as nat)),
        val_of(dec_rep(n as nat)) == n as nat,
{
    lemma_dec_rep_shape(n as nat);
    lemma_val_of_dec_rep(n as nat);
}

/// Growing a digit string never shrinks its value.
proof fn lemma_val_of_prefix(s: Seq<char>, k: int)
    requires
        0 <= k <= s.len(),
    ensures
        val_of(s) >= val_of(s.subrange(0, k)),
    decreases s.len() - k,
{
    if k < s.len() {
        lemma_val_of_prefix(s, k + 1);
        assert(s.subrange(0, k + 1).drop_last() =~= s.subrange(0, k));
        assert(val_of(s.subrange(0, k + 1)) == val_of(s.subrange(0, k)) * 10 + digit_val(
            s.subrange(0, k + 1).last(),
        ));
    } else {
        assert(s.subrange(0, k) =~= s);
    }
}

fn digit_string(d: u64) -> (s: String)
    requires
        d < 10,
    ensures
        s@ =~= seq![char_of_digit(d as nat)],
{
    proof {
        reveal_strlit("0");
        reveal_strlit("1");
        reveal_strlit("2");
        reveal_strlit("3");
        reveal_strlit("4");
        reveal_strlit("5");
        reveal_strlit("6");
        reveal_strlit("7");
        reveal_strlit("8");
        reveal_strlit("9");
    }
    let lit: &str = if d == 0 {
        "0"
    } else if d == 1 {
        "1"
    } else if d == 2 {
        "2"
    } else if d == 3 {
        "3"
    } else if d == 4 {
        "4"
    } else if d == 5 {
        "5"
    } else if d == 6 {
        "6"
    } else if d == 7 {
        "7"
    } else if d == 8 {
        "8"
    } else {
        "9"
    };
    lit.to_owned()
}

/// Print the index `n` as an opaque cursor: its decimal numeral.
pub fn encode_cursor(n: u64) -> (s: String)
    ensures
        s@ == dec_rep(n as nat),
    decreases n,
{
    if n < 10 {
        digit_string(n)
    } else {
        let mut s = encode_cursor(n / 10);
        let d = digit_string(n % 10);
        s.append(d.as_str());
        proof {
            assert(s@ =~= dec_rep((n / 10) as nat).push(char_of_digit((n % 10) as nat)));
            assert((n / 10) as nat == (n as nat) / 10);
            assert((n % 10) as nat == (n as nat) % 10);
        }
        s
    }
}

/// Read an opaque cursor back into the index it encodes.
///
/// Accepts exactly the strings `encode_cursor` produces for indices that
/// fit in a `u64`; anything else is a client error.
pub fn decode_cursor(s: &str) -> (r: Result<u64, PaginationError>)
    ensures
        match r {
            Ok(n) => cursor_shape(s@) && val_of(s@) == n as nat,
            Err(e) => {
                &&& e == PaginationError::InvalidCursor
                &&& !cursor_shape(s@) || val_of(s@) > u64::MAX
            },
        },
{
    let len = s.unicode_len();
    if len == 0 {
        return Err(PaginationError::InvalidCursor);
    }
    if len > 1 && s.get_char(0) == '0' {
        return Err(PaginationError::InvalidCursor);
    }
    let mut acc: u64 = 0;
    let mut i: usize = 0;
    while i < len
        invariant
            0 <= i <= len,
            len == s@.len(),
            len > 1 ==> s@[0] != '0',
            forall|j: int| 0 <= j < i ==> is_digit(#[trigger] s@[j]),
            acc as nat == val_of(s@.subrange(0, i as int)),
        decreases len - i,
    {
        let c = s.get_char(i);
        if !(c >= '0' && c <= '9') {
            return Err(PaginationError::InvalidCursor);
        }
        let d: u64 = (c as u32 - '0' as u32) as u64;
        proof {
            assert(is_digit(s@[i as int]));
            assert(d as nat == digit_val(s@[i as int]));
        }
        if acc > (u64::MAX - d) / 10 {
            proof {
                assert(s@.subrange(0, i as int + 1).drop_last() =~= s@.subrange(0, i as int));
                assert(val_of(s@.subrange(0, i as int + 1)) == acc as nat * 10 + d as nat);
                assert(acc as nat * 10 + d as nat > u64::MAX) by (nonlinear_arith)
                    requires
                        acc > (u64::MAX - d) / 10,
                        d < 10,
                ;
                if cursor_shape(s@) {
                    lemma_val_of_prefix(s@, i as int + 1);
                }
            }
            return Err(PaginationError::InvalidCursor);
        }
        proof {
            assert(acc as nat * 10 + d as nat <= u64::MAX) by (nonlinear_arith)
                requires
                    acc <= (u64::MAX - d) / 10,
                    d < 10,
            ;
        }
        let next = acc * 10 + d;
        proof {
            assert(s@.subrange(0, i as int + 1).drop_last() =~= s@.subrange(0, i as int));
            assert(next as nat == val_of(s@.subrange(0, i as int + 1)));
        }
        acc = next;
        i = i + 1;
    }
    proof {
        assert(s@.subrange(0, len as int) =~= s@);
    }
    Ok(acc)
}

} // verus!
