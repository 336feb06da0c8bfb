//! Room codes: six characters drawn from the uppercase letters and digits.

use vstd::prelude::*;
use vstd::string::StrSliceExecFns;
use crate::errors::GameError;
use crate::rng::rand_below;

verus! {

/// How many characters a room code has.
pub const CODE_LEN: usize = 6;

/// Whether `c` may appear in a room code: an uppercase ASCII letter or an
/// ASCII digit.
pub open spec fn is_code_char(c: char) -> bool {
    ('A' <= c && c <= 'Z') || ('0' <= c && c <= '9')
}

/// Whether `s` is a well-formed room code: exactly six characters, each an
/// uppercase ASCII letter or digit.
pub open spec fn is_valid_code(s: Seq<char>) -> bool {
    s.len() == CODE_LEN && forall|i: int| 0 <= i < s.len() ==> is_code_char(#[trigger] s[i])
}

/// Accepts exactly the well-formed room codes; every other string is
/// rejected with a format error before any registry lookup.
pub fn validate_room_code(code: &str) -> (r: Result<(), GameError>)
    ensures
        r is Ok <==> is_valid_code(code@),
        r is Err ==> r->Err_0 == GameError::InvalidFormat,
{
    let n = code.unicode_len();
    if n != CODE_LEN {
        return Err(GameError::InvalidFormat);
    }
    for i in 0..n
        invariant
            n == code@.len(),
            n == CODE_LEN,
            forall|j: int| 0 <= j < i ==> is_code_char(#[trigger] code@[j]),
    {
        let c = code.get_char(i);
        let ok = ('A' <= c && c <= 'Z') || ('0' <= c && c <= '9');
        if !ok {
            return Err(GameError::InvalidFormat);
        }
    }
    Ok(())
}

/// Samples one candidate room code uniformly from the code alphabet.
pub fn random_room_code() -> (r: String)
    ensures
        is_valid_code(r@),
{
    let alphabet = "ABCDEFGHIJKLMNOPQRSTUVWXYZ0123456789";
    proof {
        reveal_strlit("ABCDEFGHIJKLMNOPQRSTUVWXYZ0123456789");
        assert(alphabet@.len() == 36);
        assert forall|j: int| 0 <= j < 36 implies is_code_char(#[trigger] alphabet@[j]) by {
        }
        assert(alphabet.is_ascii());
    }
    let mut code = String::new();
    let mut i: usize = 0;
    while i < CODE_LEN
        invariant
            i <= CODE_LEN,
            code@.len() == i,
            forall|j: int| 0 <= j < i ==> is_code_char(#[trigger] code@[j]),
            alphabet@.len() == 36,
            alphabet.is_ascii(),
            forall|j: int| 0 <= j < 36 ==> is_code_char(#[trigger] alphabet@[j]),
        decreases CODE_LEN - i,
    {
        let idx = rand_below(36);
        let ch = alphabet.substring_ascii(idx, idx + 1);
        code.append(ch);
        i = i + 1;
    }
    code
}

} // verus!
