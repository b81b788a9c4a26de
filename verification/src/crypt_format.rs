//! The shape of the modular crypt strings that the table stores.

use vstd::prelude::*;

verus! {

/// Lowest bcrypt cost that the bcrypt primitive accepts.
pub const BCRYPT_MIN_COST: u32 = 4;

/// Highest bcrypt cost that the bcrypt primitive accepts.
pub const BCRYPT_MAX_COST: u32 = 31;

/// The bcrypt cost used when the caller names none.
pub const BCRYPT_DEFAULT_COST: u32 = 12;

/// Lowest number of rounds that SHA-512-crypt accepts.
pub const SHA512_MIN_ROUNDS: u32 = 1000;

/// Highest number of rounds that SHA-512-crypt accepts.
pub const SHA512_MAX_ROUNDS: u32 = 999_999_999;

/// Number of characters of a bcrypt hash string.
pub const BCRYPT_HASH_LEN: usize = 60;

/// Number of characters of the salt of a SHA-512-crypt hash string.
pub const SHA512_SALT_LEN: usize = 16;

/// Number of characters of the digest of a SHA-512-crypt hash string.
pub const SHA512_DIGEST_LEN: usize = 86;

/// The characters of the two 64-character alphabets of the crypt family:
/// `.`, `/`, the digits and the ASCII letters.
pub open spec fn is_crypt_char(c: char) -> bool {
    c == '.' || c == '/' || ('0' <= c && c <= '9') || ('A' <= c && c <= 'Z') || ('a' <= c && c
        <= 'z')
}

/// The character of a single decimal digit.
pub open spec fn digit_char(d: nat) -> char
    recommends
        d < 10,
{
    if d == 0 {
        '0'
    } else if d == 1 {
        '1'
    } else if d == 2 {
        '2'
    } else if d == 3 {
        '3'
    } else if d == 4 {
        '4'
    } else if d == 5 {
        '5'
    } else if d == 6 {
        '6'
    } else if d == 7 {
        '7'
    } else if d == 8 {
        '8'
    } else {
        '9'
    }
}

/// A number written in decimal, without leading zeroes.
pub open spec fn decimal(n: nat) -> Seq<char>
    decreases n,
{
    if n < 10 {
        seq![digit_char(n)]
    } else {
        decimal(n / 10).push(digit_char(n % 10))
    }
}

/// Every character of the text is printable ASCII: from the space to the
/// tilde.
pub open spec fn is_printable(s: Seq<char>) -> bool {
    forall|i: int| 0 <= i < s.len() ==> ' ' <= #[trigger] s[i] && s[i] <= '~'
}

/// A bcrypt hash string with version tag `2a`: `$2a$`, the cost in two
/// digits, `$`, then 53 characters of salt and digest.
pub open spec fn bcrypt_form(h: Seq<char>, cost: u32) -> bool {
    &&& BCRYPT_MIN_COST <= cost <= BCRYPT_MAX_COST
    &&& h.len() == BCRYPT_HASH_LEN
    &&& h[0] == '$'
    &&& h[1] == '2'
    &&& h[2] == 'a'
    &&& h[3] == '$'
    &&& h[4] == digit_char((cost / 10) as nat)
    &&& h[5] == digit_char((cost % 10) as nat)
    &&& h[6] == '$'
    &&& forall|i: int| 7 <= i < h.len() ==> is_crypt_char(#[trigger] h[i])
}

/// What stands before the salt of a SHA-512-crypt hash string: `$6$`, and
/// `rounds=N$` where a number of rounds was chosen.
pub open spec fn sha512_prefix(rounds: Option<u32>) -> Seq<char> {
    match rounds {
        Some(n) => seq!['$', '6', '$', 'r', 'o', 'u', 'n', 'd', 's', '='] + decimal(n as nat)
            + seq!['$'],
        None => seq!['$', '6', '$'],
    }
}

/// A SHA-512-crypt hash string: the prefix, a salt of 16 characters, `$`,
/// and a digest of 86 characters.
pub open spec fn sha512_form(h: Seq<char>, rounds: Option<u32>) -> bool {
    let p = sha512_prefix(rounds);
    &&& h.len() == p.len() + SHA512_SALT_LEN + 1 + SHA512_DIGEST_LEN
    &&& h.subrange(0, p.len() as int) == p
    &&& h[p.len() + SHA512_SALT_LEN] == '$'
    &&& forall|i: int|
        p.len() <= i < h.len() && i != p.len() + SHA512_SALT_LEN ==> is_crypt_char(
            #[trigger] h[i],
        )
}

/// A decimal number holds digits only.
pub proof fn lemma_decimal_digits(n: nat)
    ensures
        decimal(n).len() >= 1,
        forall|i: int| 0 <= i < decimal(n).len() ==> '0' <= #[trigger] decimal(n)[i] <= '9',
    decreases n,
{
    if n >= 10 {
        lemma_decimal_digits(n / 10);
    }
}

/// A SHA-512-crypt hash string is printable ASCII.
pub proof fn lemma_sha512_form_printable(h: Seq<char>, rounds: Option<u32>)
    requires
        sha512_form(h, rounds),
    ensures
        is_printable(h),
{
    let p = sha512_prefix(rounds);
    assert forall|i: int| 0 <= i < h.len() implies ' ' <= #[trigger] h[i] && h[i] <= '~' by {
        if i < p.len() {
            assert(h[i] == h.subrange(0, p.len() as int)[i]);
            match rounds {
                Some(n) => {
                    lemma_decimal_digits(n as nat);
                    let d = decimal(n as nat);
                    if 10 <= i < 10 + d.len() {
                        assert(p[i] == d[i - 10]);
                    }
                },
                None => {},
            }
        } else if i != p.len() + SHA512_SALT_LEN {
            assert(is_crypt_char(h[i]));
        }
    }
}

/// Two numbers with the same decimal text are the same number.
pub proof fn lemma_decimal_injective(a: nat, b: nat)
    requires
        decimal(a) == decimal(b),
    ensures
        a == b,
    decreases a,
{
    lemma_decimal_digits(a / 10);
    lemma_decimal_digits(b / 10);
    if a >= 10 && b >= 10 {
        let da = decimal(a / 10);
        let db = decimal(b / 10);
        assert(da.push(digit_char(a % 10)).drop_last() =~= da);
        assert(db.push(digit_char(b % 10)).drop_last() =~= db);
        assert(da.push(digit_char(a % 10)).last() == digit_char(a % 10));
        assert(db.push(digit_char(b % 10)).last() == digit_char(b % 10));
        assert(decimal(a) == da.push(digit_char(a % 10)));
        assert(decimal(b) == db.push(digit_char(b % 10)));
        lemma_decimal_injective(a / 10, b / 10);
        assert(a % 10 == b % 10);
    } else if a < 10 && b < 10 {
        assert(decimal(a)[0] == digit_char(a));
        assert(decimal(b)[0] == digit_char(b));
    } else if a < 10 {
        assert(decimal(a).len() == 1);
        assert(decimal(b).len() == decimal(b / 10).len() + 1);
    } else {
        assert(decimal(b).len() == 1);
        assert(decimal(a).len() == decimal(a / 10).len() + 1);
    }
}

/// The cost field of a bcrypt hash string tells the cost: one string has
/// the form of one cost only.
pub proof fn lemma_bcrypt_form_tells_cost(h: Seq<char>, cost: u32, other: u32)
    requires
        bcrypt_form(h, cost),
        bcrypt_form(h, other),
    ensures
        cost == other,
{
}

/// The rounds clause of a SHA-512-crypt hash string tells the rounds, and
/// its absence that none were named: one string has the form of one choice
/// of rounds only.
pub proof fn lemma_sha512_form_tells_rounds(h: Seq<char>, rounds: Option<u32>, other: Option<u32>)
    requires
        sha512_form(h, rounds),
        sha512_form(h, other),
    ensures
        rounds == other,
{
    let p = sha512_prefix(rounds);
    let q = sha512_prefix(other);
    assert(forall|i: int| 0 <= i < p.len() ==> h[i] == h.subrange(0, p.len() as int)[i]);
    assert(forall|i: int| 0 <= i < q.len() ==> h[i] == h.subrange(0, q.len() as int)[i]);
    match (rounds, other) {
        (Some(a), Some(b)) => {
            let da = decimal(a as nat);
            let db = decimal(b as nat);
            lemma_decimal_digits(a as nat);
            lemma_decimal_digits(b as nat);
            assert(forall|i: int| 0 <= i < da.len() ==> p[10 + i] == da[i]);
            assert(forall|i: int| 0 <= i < db.len() ==> q[10 + i] == db[i]);
            let na = da.len() as int;
            let nb = db.len() as int;
            assert(p[10 + na] == '$');
            assert(q[10 + nb] == '$');
            if na < nb {
                assert(h[10 + na] == db[na]);
            } else if nb < na {
                assert(h[10 + nb] == da[nb]);
            } else {
                assert forall|i: int| 0 <= i < da.len() implies da[i] == db[i] by {
                    assert(h[10 + i] == da[i]);
                    assert(h[10 + i] == db[i]);
                }
                assert(da =~= db);
                lemma_decimal_injective(a as nat, b as nat);
            }
        },
        (Some(a), None) => {
            lemma_decimal_digits(a as nat);
            assert(p[9] == '=');
            assert(is_crypt_char(h[9]));
        },
        (None, Some(b)) => {
            lemma_decimal_digits(b as nat);
            assert(q[9] == '=');
            assert(is_crypt_char(h[9]));
        },
        (None, None) => {},
    }
}

} // verus!
