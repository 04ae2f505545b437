use vstd::prelude::*;
use vstd::string::*;

verus! {

/// Strict lexicographic order on character sequences, by code point.
pub open spec fn lex_lt(a: Seq<char>, b: Seq<char>) -> bool
    decreases a.len(),
{
    if b.len() == 0 {
        false
    } else if a.len() == 0 {
        true
    } else if a[0] == b[0] {
        lex_lt(a.drop_first(), b.drop_first())
    } else {
        (a[0] as u32) < (b[0] as u32)
    }
}

/// Any two texts are equal or ordered, one way or the other.
pub proof fn lemma_lex_total(a: Seq<char>, b: Seq<char>)
    ensures
        a == b || lex_lt(a, b) || lex_lt(b, a),
    decreases a.len(),
{
    if a.len() == 0 && b.len() == 0 {
        assert(a =~= b);
    } else if a.len() > 0 && b.len() > 0 {
        if a[0] == b[0] {
            lemma_lex_total(a.drop_first(), b.drop_first());
            if a.drop_first() == b.drop_first() {
                assert(a.len() == b.len());
                assert forall|i: int| 0 <= i < a.len() implies a[i] == b[i] by {
                    if i > 0 {
                        assert(a[i] == a.drop_first()[i - 1]);
                        assert(b[i] == b.drop_first()[i - 1]);
                    }
                }
                assert(a =~= b);
            }
        } else {
            vstd::utf8::char_u32_cast(a[0], a[0] as u32);
            vstd::utf8::char_u32_cast(b[0], b[0] as u32);
            assert((a[0] as u32) != (b[0] as u32));
        }
    }
}

/// The order is transitive.
pub proof fn lemma_lex_trans(a: Seq<char>, b: Seq<char>, c: Seq<char>)
    requires
        lex_lt(a, b),
        lex_lt(b, c),
    ensures
        lex_lt(a, c),
    decreases a.len(),
{
    if a.len() == 0 {
    } else {
        assert(b.len() > 0);
        assert(c.len() > 0);
        if a[0] == b[0] && b[0] == c[0] {
            lemma_lex_trans(a.drop_first(), b.drop_first(), c.drop_first());
        }
    }
}

/// Whether `n` occurs in `h` as a contiguous run.
pub open spec fn contains_seq(h: Seq<char>, n: Seq<char>) -> bool {
    exists|k: int|
        0 <= k <= h.len() - n.len() && #[trigger] h.subrange(k, k + n.len() as int) == n
}

/// Compares two texts in strict lexicographic order.
pub fn str_lt(a: &str, b: &str) -> (r: bool)
    ensures
        r == lex_lt(a@, b@),
{
    let an = a.unicode_len();
    let bn = b.unicode_len();
    let mut i: usize = 0;
    proof {
        assert(a@.skip(0) =~= a@);
        assert(b@.skip(0) =~= b@);
    }
    while i < an && i < bn
        invariant
            i <= an,
            i <= bn,
            an == a@.len(),
            bn == b@.len(),
            lex_lt(a@, b@) == lex_lt(a@.skip(i as int), b@.skip(i as int)),
        decreases an - i,
    {
        proof {
            assert(a@.skip(i as int)[0] == a@[i as int]);
            assert(b@.skip(i as int)[0] == b@[i as int]);
            assert(a@.skip(i as int).drop_first() =~= a@.skip(i as int + 1));
            assert(b@.skip(i as int).drop_first() =~= b@.skip(i as int + 1));
        }
        let ca = a.get_char(i);
        let cb = b.get_char(i);
        if ca == cb {
            i = i + 1;
        } else {
            return (ca as u32) < (cb as u32);
        }
    }
    proof {
        if an <= bn {
            assert(a@.skip(i as int) =~= Seq::<char>::empty());
        }
        if bn <= an {
            assert(b@.skip(i as int) =~= Seq::<char>::empty());
        }
    }
    i < bn
}

/// Whether `n` matches `h` exactly at offset `k`.
fn match_at(h: &str, n: &str, k: usize) -> (r: bool)
    requires
        h@.len() <= usize::MAX,
        k + n@.len() <= h@.len(),
    ensures
        r == (h@.subrange(k as int, k as int + n@.len() as int) == n@),
{
    let nn = n.unicode_len();
    let mut j: usize = 0;
    while j < nn
        invariant
            j <= nn,
            nn == n@.len(),
            h@.len() <= usize::MAX,
            k + nn <= h@.len(),
            forall|t: int| 0 <= t < j ==> h@[k as int + t] == n@[t],
        decreases nn - j,
    {
        let hc = h.get_char(k + j);
        let nc = n.get_char(j);
        if hc != nc {
            proof {
                assert(h@.subrange(k as int, k as int + nn as int)[j as int] != n@[j as int]);
            }
            return false;
        }
        j = j + 1;
    }
    proof {
        assert(h@.subrange(k as int, k as int + nn as int) =~= n@);
    }
    true
}

/// Whether the text `n` occurs anywhere in the text `h`.
pub fn str_contains(h: &str, n: &str) -> (r: bool)
    ensures
        r == contains_seq(h@, n@),
{
    let hn = h.unicode_len();
    let nn = n.unicode_len();
    if nn > hn {
        return false;
    }
    if nn == 0 {
        proof {
            assert(h@.subrange(0, 0 + n@.len() as int) =~= n@);
        }
        return true;
    }
    let mut k: usize = 0;
    while k <= hn - nn
        invariant
            0 < nn <= hn,
            hn == h@.len(),
            nn == n@.len(),
            k <= hn - nn + 1,
            forall|t: int| 0 <= t < k ==> #[trigger] h@.subrange(t, t + nn as int) != n@,
        decreases hn + 1 - k,
    {
        if match_at(h, n, k) {
            proof {
                assert(0 <= k as int <= h@.len() - n@.len());
            }
            return true;
        }
        k = k + 1;
    }
    false
}

/// The decimal digit characters, smallest first.
pub open spec fn digit_char(d: nat) -> char
    recommends
        d < 10,
{
    "0123456789"@[d as int]
}

/// The decimal rendering of a number, most significant digit first, with no
/// leading zero except for the number zero itself.
pub open spec fn dec_digits(n: nat) -> Seq<char>
    decreases n,
{
    if n < 10 {
        seq![digit_char(n)]
    } else {
        dec_digits(n / 10).push(digit_char(n % 10))
    }
}

/// Renders a number in decimal.
pub fn u64_to_decimal(n: u64) -> (r: String)
    ensures
        r@ == dec_digits(n as nat),
    decreases n,
{
    let digits = "0123456789";
    proof {
        reveal_strlit("0123456789");
    }
    if n < 10 {
        let d = digits.substring_char(n as usize, n as usize + 1);
        proof {
            assert(d@ =~= seq![digit_char(n as nat)]);
        }
        String::from_str(d)
    } else {
        let mut s = u64_to_decimal(n / 10);
        let m = (n % 10) as usize;
        let d = digits.substring_char(m, m + 1);
        proof {
            assert(d@ =~= seq![digit_char((n % 10) as nat)]);
        }
        s.append(d);
        proof {
            assert(s@ =~= dec_digits((n / 10) as nat).push(digit_char((n % 10) as nat)));
        }
        s
    }
}

/// Whether a character is a decimal digit.
pub open spec fn is_digit(c: char) -> bool {
    48 <= (c as u32) <= 57
}

/// The value of one decimal digit.
pub open spec fn digit_val(c: char) -> int
    recommends
        is_digit(c),
{
    (c as u32) - 48
}

/// The value of a run of decimal digits, most significant first.
pub open spec fn digits_val(s: Seq<char>) -> int
    decreases s.len(),
{
    if s.len() == 0 {
        0
    } else {
        digits_val(s.drop_last()) * 10 + digit_val(s.last())
    }
}

/// A non-empty run of decimal digits.
pub open spec fn all_digits(s: Seq<char>) -> bool {
    &&& s.len() > 0
    &&& forall|i: int| 0 <= i < s.len() ==> is_digit(#[trigger] s[i])
}

/// The number a text denotes as a signed 32-bit integer: an optional sign,
/// then decimal digits; nothing when the text has any other form or the
/// value does not fit.
pub open spec fn parse_i32_spec(s: Seq<char>) -> Option<int> {
    let negative = s.len() > 0 && s[0] == '-';
    let body = if s.len() > 0 && (s[0] == '-' || s[0] == '+') {
        s.drop_first()
    } else {
        s
    };
    if all_digits(body) {
        let v = if negative {
            -digits_val(body)
        } else {
            digits_val(body)
        };
        if i32::MIN <= v <= i32::MAX {
            Some(v)
        } else {
            None
        }
    } else {
        None
    }
}

/// The value of a digit run never shrinks as digits are appended.
proof fn lemma_digits_val_nonneg(s: Seq<char>)
    requires
        forall|i: int| 0 <= i < s.len() ==> is_digit(#[trigger] s[i]),
    ensures
        digits_val(s) >= 0,
    decreases s.len(),
{
    if s.len() > 0 {
        lemma_digits_val_nonneg(s.drop_last());
    }
}

/// A prefix of a digit run never exceeds the whole run's value.
proof fn lemma_digits_val_prefix(s: Seq<char>, k: int)
    requires
        forall|i: int| 0 <= i < s.len() ==> is_digit(#[trigger] s[i]),
        0 <= k <= s.len(),
    ensures
        digits_val(s.subrange(0, k)) <= digits_val(s),
    decreases s.len() - k,
{
    if k == s.len() {
        assert(s.subrange(0, k) =~= s);
    } else {
        lemma_digits_val_prefix(s, k + 1);
        let p = s.subrange(0, k);
        let q = s.subrange(0, k + 1);
        assert(q.drop_last() =~= p);
        assert(q.last() == s[k]);
        lemma_digits_val_nonneg(p);
        assert(digits_val(q) == digits_val(p) * 10 + digit_val(s[k]));
    }
}

/// Reads a signed 32-bit integer from decimal text: an optional sign, then
/// at least one digit, and a value within range; anything else is refused.
#[verifier::loop_isolation(false)]
pub fn parse_i32(s: &str) -> (r: Option<i32>)
    ensures
        match r {
            Some(v) => parse_i32_spec(s@) == Some(v as int),
            None => parse_i32_spec(s@) is None,
        },
{
    let n = s.unicode_len();
    let mut start: usize = 0;
    let mut negative = false;
    if n > 0 {
        let first = s.get_char(0);
        if first == '-' {
            negative = true;
            start = 1;
        } else if first == '+' {
            start = 1;
        }
    }
    let ghost body = s@.skip(start as int);
    proof {
        if start == 1 {
            assert(body =~= s@.drop_first());
        } else {
            assert(body =~= s@);
        }
    }
    if start == n {
        return None;
    }
    let limit: u64 = if negative {
        2147483648
    } else {
        2147483647
    };
    let mut mag: u64 = 0;
    let mut i: usize = start;
    proof {
        assert(body.subrange(0, 0) =~= Seq::<char>::empty());
    }
    while i < n
        invariant
            start <= i <= n,
            n == s@.len(),
            start < n,
            body == s@.skip(start as int),
            limit <= 2147483648,
            mag <= limit,
            mag == digits_val(body.subrange(0, i - start)),
            forall|t: int| 0 <= t < i - start ==> is_digit(#[trigger] body[t]),
        decreases n - i,
    {
        let c = s.get_char(i);
        let code = c as u32;
        proof {
            assert(body[i - start] == s@[i as int]);
        }
        if code < 48 || code > 57 {
            proof {
                assert(!is_digit(body[i - start]));
                assert(!all_digits(body));
            }
            return None;
        }
        let d = (code - 48) as u64;
        let next = mag * 10 + d;
        if next > limit {
            proof {
                let k = i - start + 1;
                assert(body.subrange(0, k).drop_last() =~= body.subrange(0, i - start));
                assert(body.subrange(0, k).last() == body[i - start]);
                assert(digits_val(body.subrange(0, k)) == next);
                if all_digits(body) {
                    lemma_digits_val_prefix(body, k);
                    assert(digits_val(body) > limit);
                }
            }
            return None;
        }
        mag = next;
        proof {
            let k = i - start + 1;
            assert(body.subrange(0, k).drop_last() =~= body.subrange(0, i - start));
            assert(body.subrange(0, k).last() == body[i - start]);
        }
        i = i + 1;
    }
    proof {
        assert(body.subrange(0, n - start) =~= body);
        assert(all_digits(body));
        assert(digits_val(body) == mag);
    }
    if negative {
        if mag == 2147483648 {
            Some(i32::MIN)
        } else {
            Some(-(mag as i32))
        }
    } else {
        Some(mag as i32)
    }
}

/// The name of an account's dedicated storage container, keyed on the
/// account's stable numeric id by a fixed convention.
pub open spec fn cloud_chat_name_seq(id: nat) -> Seq<char> {
    "TuchaCloud-"@ + dec_digits(id)
}

/// Builds the storage container name for an account.
pub fn cloud_chat_name(user_id: i64) -> (r: String)
    requires
        user_id >= 0,
    ensures
        r@ == cloud_chat_name_seq(user_id as nat),
{
    let mut s = String::from_str("TuchaCloud-");
    let d = u64_to_decimal(user_id as u64);
    s.append(d.as_str());
    s
}

/// Whether a conversation's name marks it as the account's storage
/// container.
pub fn is_cloud_chat(chat_name: &str, user_id: i64) -> (r: bool)
    requires
        user_id >= 0,
    ensures
        r == contains_seq(chat_name@, cloud_chat_name_seq(user_id as nat)),
{
    let wanted = cloud_chat_name(user_id);
    str_contains(chat_name, wanted.as_str())
}

/// The file that persists an account's session, keyed on the account's
/// stable numeric id.
pub open spec fn session_file_name_seq(id: nat) -> Seq<char> {
    "sessions/"@ + dec_digits(id) + ".session"@
}

/// Builds the session file path for an account.
pub fn session_file_name(user_id: i64) -> (r: String)
    requires
        user_id >= 0,
    ensures
        r@ == session_file_name_seq(user_id as nat),
{
    let mut s = String::from_str("sessions/");
    let d = u64_to_decimal(user_id as u64);
    s.append(d.as_str());
    s.append(".session");
    s
}

} // verus!
