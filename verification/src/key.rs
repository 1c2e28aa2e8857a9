//! Key entries given as hexadecimal text.

use vstd::prelude::*;
use vstd::string::{is_ascii, is_ascii_spec_bytes, StringSliceAdditionalSpecFns};
use vstd::utf8::{
    encode_utf8_valid_utf8,
    is_char_boundary,
    is_char_boundary_iff_not_is_continuation_byte,
    is_char_boundary_start_end_of_seq,
    is_continuation_byte,
};

use crate::hex::{hex, law_pair_of_hex, pair, pair_value};

verus! {

/// Why a text is no key entry.
#[derive(Debug, Clone, Copy, PartialEq, Eq, Structural)]
pub enum KeError {
    /// The text is not twice as long as a key entry.
    Length,
    /// Two of its characters are no hexadecimal number.
    InvalidDigit,
}

/// The value of the `i`th two-byte piece of a text.
pub open spec fn piece(text: Seq<u8>, i: int) -> Option<u8> {
    pair_value(text[2 * i], text[2 * i + 1])
}

/// The key entry of `n` bytes that a text spells, two characters to a byte.
pub open spec fn ke_value(text: Seq<u8>, n: nat) -> Result<Seq<u8>, KeError> {
    if text.len() != 2 * n {
        Err(KeError::Length)
    } else if exists|i: int| 0 <= i < n && #[trigger] piece(text, i) is None {
        Err(KeError::InvalidDigit)
    } else {
        Ok(Seq::new(n, |i: int| piece(text, i)->0))
    }
}

/// Cutting the text into pieces of two bytes, up to and including the first
/// that is no number, never cuts through a character.
pub open spec fn cuts_cleanly(text: Seq<u8>, n: nat) -> bool {
    text.len() == 2 * n ==> forall|i: int|
        0 <= i < n && (forall|j: int| 0 <= j < i ==> #[trigger] piece(text, j) is Some)
            ==> #[trigger] is_char_boundary(text, 2 * i + 2)
}

/// A key entry written out in lower-case hexadecimal, as ASCII bytes.
pub open spec fn ke_text(ke: Seq<u8>) -> Seq<u8> {
    Seq::new(2 * ke.len(), |i: int| hex(ke[i / 2] as nat, 2)[i % 2] as u8)
}

/// Every key entry is read back from its lower-case hexadecimal text.
pub proof fn law_ke_of_text(ke: Seq<u8>)
    ensures
        ke_value(ke_text(ke), ke.len()) == Ok::<Seq<u8>, KeError>(ke),
{
    let text = ke_text(ke);
    assert forall|i: int| 0 <= i < ke.len() implies #[trigger] piece(text, i) == Some(ke[i]) by {
        law_pair_of_hex(ke[i]);
        assert((2 * i) / 2 == i && (2 * i + 1) / 2 == i);
        assert((2 * i) % 2 == 0 && (2 * i + 1) % 2 == 1);
    }
    assert(Seq::new(ke.len(), |i: int| piece(text, i)->0) =~= ke);
}

/// A text is refused for its length just where that is wrong, whatever it
/// holds. Any other spells the key entry `ke` just where each two bytes spell
/// the byte at their place, and is refused for its digits just where some two
/// bytes are no number.
pub proof fn law_ke_value(text: Seq<u8>, n: nat, ke: Seq<u8>)
    ensures
        text.len() != 2 * n <==> ke_value(text, n) == Err::<Seq<u8>, KeError>(KeError::Length),
        ke_value(text, n) == Ok::<Seq<u8>, KeError>(ke) <==> text.len() == 2 * n && ke.len() == n
            && forall|i: int|
            0 <= i < n ==> pair_value(text[2 * i], text[2 * i + 1]) == Some(#[trigger] ke[i]),
        ke_value(text, n) == Err::<Seq<u8>, KeError>(KeError::InvalidDigit) <==> text.len() == 2 * n
            && exists|i: int|
            0 <= i < n && pair_value(#[trigger] text[2 * i], text[2 * i + 1]) is None,
{
    if text.len() == 2 * n {
        if exists|i: int| 0 <= i < n && #[trigger] piece(text, i) is None {
            let i = choose|i: int| 0 <= i < n && #[trigger] piece(text, i) is None;
            assert(pair_value(text[2 * i], text[2 * i + 1]) is None);
            if ke.len() == n {
                assert(pair_value(text[2 * i], text[2 * i + 1]) != Some(ke[i]));
            }
        } else {
            let found = Seq::new(n, |i: int| piece(text, i)->0);
            assert forall|i: int| 0 <= i < n implies pair_value(
                #[trigger] text[2 * i],
                text[2 * i + 1],
            ) is Some by {
                assert(piece(text, i) is Some);
            }
            assert forall|i: int| 0 <= i < n implies pair_value(text[2 * i], text[2 * i + 1])
                == Some(#[trigger] found[i]) by {
                assert(piece(text, i) is Some);
            }
            if ke.len() == n && forall|i: int|
                0 <= i < n ==> pair_value(text[2 * i], text[2 * i + 1]) == Some(#[trigger] ke[i]) {
                assert forall|i: int| 0 <= i < n implies #[trigger] found[i] == ke[i] by {
                    assert(pair_value(text[2 * i], text[2 * i + 1]) == Some(ke[i]));
                }
                assert(found =~= ke);
            }
        }
    }
}

/// The `i`th piece of a text is the two bytes from byte `2 * i` on.
pub proof fn law_piece(text: Seq<u8>, i: int)
    requires
        0 <= i,
        2 * i + 1 < text.len(),
    ensures
        piece(text, i) == pair_value(text[2 * i], text[2 * i + 1]),
{
}

/// A text of the wrong length is never cut. Any other is cut cleanly just where
/// each place that is cut, behind a piece that only numbers precede, lies
/// between two characters.
pub proof fn law_cuts_cleanly(text: Seq<u8>, n: nat)
    ensures
        text.len() != 2 * n ==> cuts_cleanly(text, n),
        text.len() == 2 * n ==> (cuts_cleanly(text, n) <==> forall|i: int|
            0 <= i < n && (forall|j: int|
                0 <= j < i ==> (#[trigger] piece(text, j)) is Some) ==> #[trigger] is_char_boundary(
                text,
                2 * i + 2,
            )),
{
}

/// An ASCII letter in lower case, any other byte as it is.
pub open spec fn lower(byte: u8) -> u8 {
    if 0x41 <= byte <= 0x5a {
        (byte + 0x20) as u8
    } else {
        byte
    }
}

/// A text with its ASCII letters in lower case.
pub open spec fn lowered(text: Seq<u8>) -> Seq<u8> {
    text.map_values(|byte: u8| lower(byte))
}

/// Whether letters are upper or lower case makes no difference, neither to the
/// key entry that a text spells nor to why it spells none.
pub proof fn law_case_ignored(text: Seq<u8>, n: nat)
    ensures
        ke_value(lowered(text), n) == ke_value(text, n),
{
    let low = lowered(text);
    if text.len() == 2 * n {
        assert forall|i: int| 0 <= i < n implies #[trigger] piece(low, i) == piece(text, i) by {
            assert(low[2 * i] == lower(text[2 * i]));
            assert(low[2 * i + 1] == lower(text[2 * i + 1]));
        }
        if exists|i: int| 0 <= i < n && #[trigger] piece(text, i) is None {
            let i = choose|i: int| 0 <= i < n && #[trigger] piece(text, i) is None;
            assert(piece(low, i) is None);
        } else {
            assert(Seq::new(n, |i: int| piece(low, i)->0) =~= Seq::new(
                n,
                |i: int| piece(text, i)->0,
            ));
        }
    }
}

/// Every key entry is read back from its hexadecimal text, whichever of the
/// letters are upper case.
pub proof fn law_ke_of_text_in_either_case(ke: Seq<u8>, text: Seq<u8>)
    requires
        lowered(text) == ke_text(ke),
    ensures
        ke_value(text, ke.len()) == Ok::<Seq<u8>, KeError>(ke),
{
    law_ke_of_text(ke);
    law_case_ignored(text, ke.len());
}

/// No cut goes through a character of an ASCII text: `parse_ke` takes every one.
pub proof fn law_ascii_cuts_cleanly(s: &str, n: nat)
    requires
        is_ascii(s),
    ensures
        cuts_cleanly(s.spec_bytes(), n),
{
    let text = s.spec_bytes();
    is_ascii_spec_bytes(s);
    encode_utf8_valid_utf8(s@);
    is_char_boundary_start_end_of_seq(text);
    if text.len() == 2 * n {
        assert forall|i: int| 0 <= i < n implies #[trigger] is_char_boundary(text, 2 * i + 2) by {
            if 2 * i + 2 < text.len() {
                assert('\0' <= s@[2 * i + 2] <= '\u{7f}');
                assert(!is_continuation_byte(text[2 * i + 2]));
                is_char_boundary_iff_not_is_continuation_byte(text, 2 * i + 2);
            }
        }
    }
}

/// Tells whether `parse_ke` may be asked for a key entry of `n` bytes.
pub fn splits_cleanly(s: &str, n: usize) -> (clean: bool)
    ensures
        clean == cuts_cleanly(s.spec_bytes(), n as nat),
{
    let text: &[u8] = s.as_bytes();
    if text.len() % 2 != 0 || text.len() / 2 != n {
        return true;
    }
    let mut i: usize = 0;
    while i < n
        invariant
            i <= n,
            text@ == s.spec_bytes(),
            text@.len() == 2 * n == text.len(),
            forall|j: int| 0 <= j < i ==> #[trigger] piece(text@, j) is Some,
            forall|j: int| 0 <= j < i ==> #[trigger] is_char_boundary(text@, 2 * j + 2),
        decreases n - i,
    {
        let ghost at: int = i as int;
        if !s.is_char_boundary(2 * i + 2) {
            assert(!is_char_boundary(text@, 2 * at + 2));
            return false;
        }
        assert(is_char_boundary(text@, 2 * at + 2));
        if pair(text[2 * i], text[2 * i + 1]).is_none() {
            assert(piece(text@, at) is None);
            return true;
        }
        assert(piece(text@, at) is Some);
        i = i + 1;
    }
    true
}

/// Reads a key entry of `N` bytes from hexadecimal text, two characters to a
/// byte. Digits of either case are read, and a plus sign in place of the first
/// of two digits.
pub fn parse_ke<const N: usize>(s: &str) -> (ke: Result<[u8; N], KeError>)
    requires
        cuts_cleanly(s.spec_bytes(), N as nat),
    ensures
        match ke {
            Ok(entry) => ke_value(s.spec_bytes(), N as nat) == Ok::<Seq<u8>, KeError>(entry@),
            Err(e) => ke_value(s.spec_bytes(), N as nat) == Err::<Seq<u8>, KeError>(e),
        },
{
    let text: &[u8] = s.as_bytes();
    if text.len() % 2 != 0 || text.len() / 2 != N {
        return Err(KeError::Length);
    }
    let mut ke: [u8; N] = [0u8; N];
    let mut i: usize = 0;
    while i < N
        invariant
            i <= N,
            text@ == s.spec_bytes(),
            text@.len() == 2 * N == text.len(),
            ke@.len() == N,
            forall|j: int| 0 <= j < i ==> #[trigger] piece(text@, j) == Some(ke@[j]),
        decreases N - i,
    {
        let ghost at: int = i as int;
        match pair(text[2 * i], text[2 * i + 1]) {
            Some(byte) => {
                assert(piece(text@, at) == Some(byte));
                ke[i] = byte;
            },
            None => {
                assert(piece(text@, at) is None);
                return Err(KeError::InvalidDigit);
            },
        }
        i = i + 1;
    }
    assert(Seq::new(N as nat, |i: int| piece(text@, i)->0) =~= ke@);
    Ok(ke)
}

} // verus!
