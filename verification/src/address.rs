//! Finding a wallet address in running text.
//!
//! An address is `0x` followed by exactly forty hexadecimal digits, upper or
//! lower case. It may stand anywhere in the text, also inside a longer run of
//! hexadecimal digits; the first place where one can be read is the one that
//! counts.

use crate::text::chars_of;
use vstd::prelude::*;
use vstd::string::StrSliceExecFns;
use vstd::string::StringExecFns;

verus! {

/// The number of characters in an address: `0x` and forty digits.
pub const ADDRESS_LEN: usize = 42;

/// `c` is a hexadecimal digit, upper or lower case.
pub open spec fn is_hex_char(c: char) -> bool {
    ('0' <= c <= '9') || ('a' <= c <= 'f') || ('A' <= c <= 'F')
}

/// An address can be read in `text` starting at index `i`.
pub open spec fn address_at(text: Seq<char>, i: int) -> bool {
    &&& 0 <= i
    &&& i + 42 <= text.len()
    &&& text[i] == '0'
    &&& text[i + 1] == 'x'
    &&& forall|k: int| i + 2 <= k < i + 42 ==> is_hex_char(#[trigger] text[k])
}

/// `i` is the first index of `text` at which an address can be read.
pub open spec fn first_address_at(text: Seq<char>, i: int) -> bool {
    address_at(text, i) && forall|j: int| 0 <= j < i ==> !address_at(text, j)
}

/// No address can be read anywhere in `text`.
pub open spec fn no_address(text: Seq<char>) -> bool {
    forall|i: int| !address_at(text, i)
}

/// `text` is an address and nothing else.
pub open spec fn is_address(text: Seq<char>) -> bool {
    text.len() == 42 && address_at(text, 0)
}

/// The first index of `text` at which an address can be read, where there is
/// one.
pub open spec fn first_address_index(text: Seq<char>) -> int {
    choose|i: int| first_address_at(text, i)
}

/// The first address that can be read in `text`: the forty-two characters at
/// the first index where one starts, or `None` where none starts anywhere.
pub open spec fn detected_address(text: Seq<char>) -> Option<Seq<char>> {
    if exists|i: int| address_at(text, i) {
        Some(text.subrange(first_address_index(text), first_address_index(text) + 42))
    } else {
        None
    }
}

/// There is only one first index.
pub proof fn lemma_first_address_unique(text: Seq<char>, i: int)
    requires
        first_address_at(text, i),
    ensures
        first_address_index(text) == i,
        detected_address(text) == Some(text.subrange(i, i + 42)),
{
    let j = first_address_index(text);
    assert(first_address_at(text, j));
    if j < i {
        assert(!address_at(text, j));
    }
    if i < j {
        assert(!address_at(text, i));
    }
}

/// Whether `c` is a hexadecimal digit.
pub fn hex_char(c: char) -> (b: bool)
    ensures
        b == is_hex_char(c),
{
    (c >= '0' && c <= '9') || (c >= 'a' && c <= 'f') || (c >= 'A' && c <= 'F')
}

/// Whether an address can be read in `chars` starting at index `i`.
pub fn has_address_at(chars: &Vec<char>, i: usize) -> (b: bool)
    ensures
        b == address_at(chars@, i as int),
{
    let n = chars.len();
    if n < ADDRESS_LEN || i > n - ADDRESS_LEN {
        return false;
    }
    if chars[i] != '0' || chars[i + 1] != 'x' {
        return false;
    }
    let mut k: usize = i + 2;
    while k < i + ADDRESS_LEN
        invariant
            i + 2 <= k <= i + 42 <= chars.len(),
            forall|j: int| i + 2 <= j < k ==> is_hex_char(#[trigger] chars@[j]),
        decreases i + 42 - k,
    {
        if !hex_char(chars[k]) {
            return false;
        }
        k += 1;
    }
    true
}

/// The first index of `chars` at which an address can be read.
pub fn find_address(chars: &Vec<char>) -> (found: Option<usize>)
    ensures
        match found {
            Some(i) => first_address_at(chars@, i as int),
            None => no_address(chars@),
        },
{
    let n = chars.len();
    if n < ADDRESS_LEN {
        return None;
    }
    let last = n - ADDRESS_LEN;
    let mut i: usize = 0;
    while i <= last
        invariant
            i <= last + 1,
            last + 42 == chars.len(),
            forall|j: int| 0 <= j < i ==> !address_at(chars@, j),
        decreases last + 1 - i,
    {
        if has_address_at(chars, i) {
            return Some(i);
        }
        i += 1;
    }
    None
}

/// The first wallet address in `text`, or `None` if `text` holds none.
///
/// The result is exactly the forty-two characters at the first index where an
/// address can be read, whatever stands before or after them.
pub fn extract_wallet_address(text: &str) -> (found: Option<String>)
    ensures
        match found {
            Some(address) => exists|i: int|
                first_address_at(text@, i) && address@ == #[trigger] text@.subrange(i, i + 42),
            None => no_address(text@),
        },
        match found {
            Some(address) => detected_address(text@) == Some(address@),
            None => detected_address(text@) is None,
        },
{
    let chars = chars_of(text);
    match find_address(&chars) {
        Some(i) => {
            assert(address_at(chars@, i as int));
            assert(i + 42 <= chars.len());
            proof {
                lemma_first_address_unique(text@, i as int);
            }
            Some(String::from_str(text.substring_char(i, i + ADDRESS_LEN)))
        },
        None => None,
    }
}

/// What has been extracted is an address, and the detector finds it again in
/// it, whole.
pub proof fn lemma_extracted_is_address(text: Seq<char>, i: int)
    requires
        address_at(text, i),
    ensures
        is_address(text.subrange(i, i + 42)),
        first_address_at(text.subrange(i, i + 42), 0),
{
    let a = text.subrange(i, i + 42);
    assert forall|k: int| 2 <= k < 42 implies is_hex_char(#[trigger] a[k]) by {
        assert(a[k] == text[i + k]);
    }
}

/// Where an address can be read anywhere in `text`, one is detected, and it
/// is the one that starts first.
pub proof fn lemma_address_detected(text: Seq<char>, k: int)
    requires
        address_at(text, k),
    ensures
        first_address_at(text, first_address_index(text)),
        first_address_index(text) <= k,
        detected_address(text) == Some(
            text.subrange(first_address_index(text), first_address_index(text) + 42),
        ),
    decreases k,
{
    if exists|j: int| 0 <= j < k && address_at(text, j) {
        let j = choose|j: int| 0 <= j < k && address_at(text, j);
        lemma_address_detected(text, j);
    } else {
        assert(first_address_at(text, k));
        lemma_first_address_unique(text, k);
    }
}

/// Where no address can be read in `text`, none is detected.
pub proof fn lemma_no_address_detected(text: Seq<char>)
    requires
        no_address(text),
    ensures
        detected_address(text) is None,
{
}

} // verus!
