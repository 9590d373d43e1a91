//! Locating a block hash in a raw response body: a pattern search over the
//! text, with no structured parse.
use vstd::prelude::*;
use crate::text::chars_of;

verus! {

/// Whether `c` is a lower-case hexadecimal digit.
pub open spec fn is_hex_lower(c: char) -> bool {
    ('0' <= c && c <= '9') || ('a' <= c && c <= 'f')
}

/// Whether `c` is a hexadecimal digit of either case.
pub open spec fn is_hex_digit(c: char) -> bool {
    is_hex_lower(c) || ('A' <= c && c <= 'F')
}

/// Whether `t` is a well-formed block hash: `0x` and 64 lower-case hex digits.
pub open spec fn is_hash_token(t: Seq<char>) -> bool {
    &&& t.len() == 66
    &&& t[0] == '0'
    &&& t[1] == 'x'
    &&& forall|k: int| 2 <= k < 66 ==> is_hex_lower(#[trigger] t[k])
}

/// Whether a block hash starts at `i` in `body`: a well-formed hash that is
/// not part of a longer run of hex digits (no hex digit just before it or
/// just after it).
pub open spec fn hash_token_at(body: Seq<char>, i: int) -> bool {
    &&& 0 <= i
    &&& i + 66 <= body.len()
    &&& is_hash_token(body.subrange(i, i + 66))
    &&& (i == 0 || !is_hex_digit(body[i - 1]))
    &&& (i + 66 == body.len() || !is_hex_digit(body[i + 66]))
}

/// Whether `i` is the first place where a block hash starts in `body`.
pub open spec fn first_hash_token(body: Seq<char>, i: int) -> bool {
    &&& hash_token_at(body, i)
    &&& forall|j: int| 0 <= j < i ==> !hash_token_at(body, j)
}

/// The block hash that starts at `i`.
pub open spec fn hash_at(body: Seq<char>, i: int) -> Seq<char> {
    body.subrange(i, i + 66)
}

/// The first block hash in `body`, if it holds one.
pub open spec fn body_hash(body: Seq<char>) -> Option<Seq<char>> {
    if exists|i: int| hash_token_at(body, i) {
        Some(hash_at(body, choose|i: int| first_hash_token(body, i)))
    } else {
        None
    }
}

/// A body has at most one first block hash.
pub proof fn lemma_first_token_unique(body: Seq<char>, i: int, j: int)
    requires
        first_hash_token(body, i),
        first_hash_token(body, j),
    ensures
        i == j,
{
    if i < j {
        assert(!hash_token_at(body, i));
    } else if j < i {
        assert(!hash_token_at(body, j));
    }
}

fn is_hex_lower_char(c: char) -> (r: bool)
    ensures
        r == is_hex_lower(c),
{
    ('0' <= c && c <= '9') || ('a' <= c && c <= 'f')
}

fn is_hex_digit_char(c: char) -> (r: bool)
    ensures
        r == is_hex_digit(c),
{
    is_hex_lower_char(c) || ('A' <= c && c <= 'F')
}

/// Whether a block hash starts at `i` in `body`.
fn token_at(body: &Vec<char>, i: usize) -> (r: bool)
    ensures
        r == hash_token_at(body@, i as int),
{
    if i >= body.len() || body.len() - i < 66 {
        return false;
    }
    if body[i] != '0' || body[i + 1] != 'x' {
        return false;
    }
    if i > 0 && is_hex_digit_char(body[i - 1]) {
        return false;
    }
    if i + 66 < body.len() && is_hex_digit_char(body[i + 66]) {
        return false;
    }
    let ghost t = body@.subrange(i as int, i + 66);
    let mut k: usize = 2;
    while k < 66
        invariant
            2 <= k <= 66,
            i + 66 <= body.len(),
            t == body@.subrange(i as int, i + 66),
            forall|j: int| 2 <= j < k ==> is_hex_lower(#[trigger] t[j]),
        decreases 66 - k,
    {
        if !is_hex_lower_char(body[i + k]) {
            assert(!is_hex_lower(t[k as int]));
            return false;
        }
        k = k + 1;
    }
    true
}

/// The error of a body that holds no block hash: the body itself, for the log.
#[derive(Debug, Clone, PartialEq, Eq)]
pub struct MissingHash {
    pub body: String,
}

/// Extracts the block hash from a response body: the first `0x` followed by
/// 64 lower-case hex digits, anywhere in the text, that is not part of a
/// longer run of hex digits. A body without one is an error that carries the
/// body.
pub fn extract_hash(body: &str) -> (r: Result<String, MissingHash>)
    ensures
        r is Ok <==> exists|i: int| hash_token_at(body@, i),
        r matches Ok(h) ==> exists|i: int| first_hash_token(body@, i) && h@ == hash_at(body@, i),
        r matches Err(e) ==> e.body@ == body@,
        r matches Ok(h) ==> body_hash(body@) == Some(h@),
        r is Err ==> body_hash(body@) is None,
{
    let chars = chars_of(body);
    let n = chars.len();
    let mut i: usize = 0;
    while i < n
        invariant
            n == chars@.len(),
            chars@ == body@,
            i <= n,
            forall|j: int| 0 <= j < i ==> !hash_token_at(body@, j),
        decreases n - i,
    {
        if token_at(&chars, i) {
            let h = body.substring_char(i, i + 66).to_owned();
            assert(first_hash_token(body@, i as int));
            proof {
                let c = choose|j: int| first_hash_token(body@, j);
                lemma_first_token_unique(body@, i as int, c);
            }
            return Ok(h);
        }
        i = i + 1;
    }
    assert forall|j: int| !hash_token_at(body@, j) by {
        if 0 <= j < i {
        }
    }
    Err(MissingHash { body: body.to_owned() })
}

} // verus!
