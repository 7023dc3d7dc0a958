use vstd::prelude::*;
use vstd::utf8::encode_utf8;

verus! {

/// Length in bytes of the UTF-8 encoding of `s`.
pub open spec fn byte_len(s: Seq<char>) -> nat {
    encode_utf8(s).len()
}

/// The number of bytes in the UTF-8 encoding of `s`.
pub fn byte_size(s: &str) -> (n: usize)
    ensures
        n as nat == byte_len(s@),
{
    s.as_bytes().len()
}

/// Every non-overlapping occurrence of `p` in `s`, searched from the left,
/// replaced by `r`. An empty pattern matches before every character and at the end.
pub open spec fn replace_all(s: Seq<char>, p: Seq<char>, r: Seq<char>) -> Seq<char>
    decreases s.len(),
{
    if p.len() == 0 {
        if s.len() == 0 {
            r
        } else {
            r + seq![s[0]] + replace_all(s.drop_first(), p, r)
        }
    } else if s.len() < p.len() {
        s
    } else if s.subrange(0, p.len() as int) == p {
        r + replace_all(s.subrange(p.len() as int, s.len() as int), p, r)
    } else {
        seq![s[0]] + replace_all(s.drop_first(), p, r)
    }
}

/// The upper-case mapping of `s`, as Unicode defines it.
pub uninterp spec fn upper_of(s: Seq<char>) -> Seq<char>;

/// Relies on `str::replace`: a new string with every non-overlapping match of
/// `pat`, taken from the left, replaced by `rep`.
#[verifier::external_body]
pub(crate) fn replace_text(s: &str, pat: &str, rep: &str) -> (r: String)
    ensures
        r@ == replace_all(s@, pat@, rep@),
{
    s.replace(pat, rep)
}

/// Relies on `str::to_uppercase`: the result depends on the characters alone,
/// and an empty string stays empty.
#[verifier::external_body]
pub(crate) fn to_upper(s: &str) -> (r: String)
    ensures
        r@ == upper_of(s@),
        s@.len() == 0 ==> r@.len() == 0,
{
    s.to_uppercase()
}

/// The ten decimal digits, in order.
pub open spec fn digit_chars() -> Seq<char> {
    seq!['0', '1', '2', '3', '4', '5', '6', '7', '8', '9']
}

/// Decimal notation of `n`, without leading zeros.
pub open spec fn decimal(n: nat) -> Seq<char>
    decreases n,
{
    if n < 10 {
        seq![digit_chars()[n as int]]
    } else {
        decimal(n / 10) + seq![digit_chars()[(n % 10) as int]]
    }
}

fn digit_text(d: u32) -> (r: String)
    requires
        d < 10,
    ensures
        r@ == seq![digit_chars()[d as int]],
{
    let all = "0123456789";
    proof {
        reveal_strlit("0123456789");
        assert(all@ =~= digit_chars());
    }
    let one = all.substring_char(d as usize, d as usize + 1);
    proof {
        assert(one@ =~= seq![digit_chars()[d as int]]);
    }
    String::from_str(one)
}

/// Writes `n` in decimal notation.
pub fn decimal_text(n: u32) -> (r: String)
    ensures
        r@ == decimal(n as nat),
{
    let mut m: u32 = n;
    let mut tail = String::new();
    while m >= 10
        invariant
            decimal(n as nat) == decimal(m as nat) + tail@,
        decreases m,
    {
        let mut head = digit_text(m % 10);
        head.append(tail.as_str());
        proof {
            assert(decimal(m as nat) == decimal((m / 10) as nat) + seq![digit_chars()[(m % 10) as int]]);
            assert(decimal(n as nat) =~= decimal((m / 10) as nat) + head@);
        }
        tail = head;
        m = m / 10;
    }
    let mut r = digit_text(m);
    r.append(tail.as_str());
    r
}

/// A well-formed e-mail address: exactly one `@`, with at least one character
/// on each side of it, and no space anywhere.
pub open spec fn valid_email(e: Seq<char>) -> bool {
    &&& exists|i: int| 0 < i < e.len() - 1 && e[i] == '@'
    &&& forall|j: int, k: int|
        0 <= j < e.len() && 0 <= k < e.len() && e[j] == '@' && e[k] == '@' ==> j == k
    &&& forall|j: int| 0 <= j < e.len() ==> e[j] != ' '
}

/// Checks an e-mail address against `valid_email`.
pub fn is_valid_email(email: &str) -> (r: bool)
    ensures
        r == valid_email(email@),
{
    let n = email.unicode_len();
    let mut at: Option<usize> = None;
    let mut i: usize = 0;
    while i < n
        invariant
            n == email@.len(),
            i <= n,
            forall|j: int| 0 <= j < i ==> email@[j] != ' ',
            at is None ==> forall|j: int| 0 <= j < i ==> email@[j] != '@',
            at matches Some(p) ==> p < i && email@[p as int] == '@' && forall|j: int|
                0 <= j < i && j != p ==> email@[j] != '@',
        decreases n - i,
    {
        let c = email.get_char(i);
        if c == ' ' {
            return false;
        }
        if c == '@' {
            if at.is_some() {
                proof {
                    let p = at->Some_0;
                    assert(email@[p as int] == '@' && email@[i as int] == '@');
                }
                return false;
            }
            at = Some(i);
        }
        i = i + 1;
    }
    match at {
        None => false,
        Some(p) => {
            proof {
                if valid_email(email@) {
                    let w = choose|w: int| 0 < w < email@.len() - 1 && email@[w] == '@';
                    assert(w == p as int);
                }
            }
            0 < p && p + 1 < n
        },
    }
}

} // verus!
