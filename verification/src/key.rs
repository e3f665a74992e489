//! Cryptographic keys, exchanged as base64 text.
//!
//! A key is opaque to this layer: it is only parsed and validated, never
//! generated or inspected. A well-formed key text is the canonical base64
//! encoding of 32 bytes: 44 characters, the last one `=`, and the one
//! before it carrying no nonzero padding bits.

use vstd::prelude::*;
use vstd::string::{StrSliceExecFns, StringExecFns};

verus! {

/// The six-bit value a base64 alphabet character stands for, or -1 for a
/// character outside the alphabet.
pub open spec fn b64_val(c: char) -> int {
    let u = c as u32;
    if 65 <= u && u <= 90 {  // 'A'..'Z'
        u - 65
    } else if 97 <= u && u <= 122 {  // 'a'..'z'
        u - 71
    } else if 48 <= u && u <= 57 {  // '0'..'9'
        u + 4
    } else if u == 43 {  // '+'
        62
    } else if u == 47 {  // '/'
        63
    } else {
        -1
    }
}

/// The six-bit value a base64 alphabet character stands for, or -1.
pub fn b64_char_val(c: char) -> (r: i32)
    ensures
        r as int == b64_val(c),
{
    let u = c as u32;
    if 65 <= u && u <= 90 {
        (u - 65) as i32
    } else if 97 <= u && u <= 122 {
        (u - 71) as i32
    } else if 48 <= u && u <= 57 {
        (u + 4) as i32
    } else if u == 43 {
        62
    } else if u == 47 {
        63
    } else {
        -1
    }
}

/// Whether `s` is the canonical base64 encoding of a 32-byte key: 44
/// characters, the first 43 in the base64 alphabet, two zero padding bits
/// in the 43rd, and a final `=`.
pub open spec fn valid_key_b64(s: Seq<char>) -> bool {
    &&& s.len() == 44
    &&& forall|i: int| 0 <= i < 43 ==> b64_val(s[i]) >= 0
    &&& b64_val(s[42]) % 4 == 0
    &&& s[43] == '='
}

/// Check whether `s` is a well-formed base64 key text.
pub fn is_valid_key_b64(s: &str) -> (r: bool)
    ensures
        r == valid_key_b64(s@),
{
    let n = s.unicode_len();
    if n != 44 {
        return false;
    }
    let mut i: usize = 0;
    while i < 43
        invariant
            0 <= i <= 43,
            s@.len() == 44,
            forall|j: int| 0 <= j < i ==> b64_val(s@[j]) >= 0,
        decreases 43 - i,
    {
        if b64_char_val(s.get_char(i)) < 0 {
            return false;
        }
        i += 1;
    }
    if b64_char_val(s.get_char(42)) % 4 != 0 {
        return false;
    }
    s.get_char(43) == '='
}

/// A cryptographic key, held as its validated base64 text.
#[derive(Clone, Debug)]
pub struct Key {
    pub text: String,
}

impl View for Key {
    type V = Seq<char>;

    open spec fn view(&self) -> Seq<char> {
        self.text@
    }
}

impl Key {
    /// Well-formedness: the text is a canonical 32-byte key encoding.
    pub open spec fn wf(&self) -> bool {
        valid_key_b64(self@)
    }

    /// Parse base64 text into a key: succeeds exactly on well-formed key text.
    pub fn from_base64(s: &str) -> (r: Option<Key>)
        ensures
            match r {
                Some(k) => valid_key_b64(s@) && k@ == s@ && k.wf(),
                None => !valid_key_b64(s@),
            },
    {
        if is_valid_key_b64(s) {
            Some(Key { text: s.to_owned() })
        } else {
            None
        }
    }

    /// The key's base64 text.
    pub fn to_base64(&self) -> (r: String)
        ensures
            r@ == self@,
    {
        self.text.clone()
    }

    /// An owned copy of the key with the same text.
    pub fn duplicate(&self) -> (r: Key)
        ensures
            r@ == self@,
    {
        Key { text: self.text.clone() }
    }
}

/// The key text the in-memory store hands a device that is created
/// without a private key: it stands in for real key generation, which
/// this layer never performs.
pub open spec fn generated_key_text() -> Seq<char> {
    Seq::new(44, |i: int| if i < 43 { 'A' } else { '=' })
}

/// Build the store's generated key.
pub fn generated_key() -> (r: Key)
    ensures
        r@ == generated_key_text(),
        r.wf(),
{
    let mut s = String::new();
    let mut i: usize = 0;
    while i < 43
        invariant
            0 <= i <= 43,
            s@.len() == i,
            forall|j: int| 0 <= j < i ==> s@[j] == 'A',
        decreases 43 - i,
    {
        proof {
            reveal_strlit("A");
        }
        s.append("A");
        i += 1;
    }
    proof {
        reveal_strlit("=");
    }
    s.append("=");
    proof {
        assert(s@ =~= generated_key_text());
    }
    Key { text: s }
}

} // verus!
