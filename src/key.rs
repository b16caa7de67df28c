//! Keys: their UTF-8 validity, and the file names derived from them.

use vstd::prelude::*;

verus! {

/// Whether byte `i` of `s` exists and lies in `lo..=hi`.
pub open spec fn byte_in(s: Seq<u8>, i: int, lo: u8, hi: u8) -> bool {
    0 <= i < s.len() && lo <= s[i] && s[i] <= hi
}

/// Length of the well-formed UTF-8 sequence at the start of `s`
/// (Unicode, table 3-7), or 0 when `s` does not start with one.
pub open spec fn utf8_char_len(s: Seq<u8>) -> nat {
    if byte_in(s, 0, 0x00, 0x7F) {
        1
    } else if byte_in(s, 0, 0xC2, 0xDF) && byte_in(s, 1, 0x80, 0xBF) {
        2
    } else if ((byte_in(s, 0, 0xE0, 0xE0) && byte_in(s, 1, 0xA0, 0xBF))
        || (byte_in(s, 0, 0xE1, 0xEC) && byte_in(s, 1, 0x80, 0xBF))
        || (byte_in(s, 0, 0xED, 0xED) && byte_in(s, 1, 0x80, 0x9F))
        || (byte_in(s, 0, 0xEE, 0xEF) && byte_in(s, 1, 0x80, 0xBF)))
        && byte_in(s, 2, 0x80, 0xBF) {
        3
    } else if ((byte_in(s, 0, 0xF0, 0xF0) && byte_in(s, 1, 0x90, 0xBF))
        || (byte_in(s, 0, 0xF1, 0xF3) && byte_in(s, 1, 0x80, 0xBF))
        || (byte_in(s, 0, 0xF4, 0xF4) && byte_in(s, 1, 0x80, 0x8F)))
        && byte_in(s, 2, 0x80, 0xBF) && byte_in(s, 3, 0x80, 0xBF) {
        4
    } else {
        0
    }
}

/// Whether `s` is a sequence of well-formed UTF-8 characters.
pub open spec fn valid_utf8(s: Seq<u8>) -> bool
    decreases s.len(),
{
    if s.len() == 0 {
        true
    } else {
        let n = utf8_char_len(s);
        0 < n <= s.len() && valid_utf8(s.skip(n as int))
    }
}

/// Length of the longest prefix of `s` made of whole well-formed characters.
pub open spec fn utf8_valid_up_to(s: Seq<u8>) -> nat
    decreases s.len(),
{
    let n = utf8_char_len(s);
    if s.len() == 0 || n == 0 || n > s.len() {
        0
    } else {
        n + utf8_valid_up_to(s.skip(n as int))
    }
}

/// A key that is not valid UTF-8.
#[derive(Debug, Clone, Copy, PartialEq, Eq, Structural)]
pub struct KeyEncodingError {
    /// Length of the longest prefix of the key made of whole characters.
    pub valid_up_to: usize,
}

/// Whether byte `i + k` of `key` exists and lies in `lo..=hi`.
fn in_range(key: &[u8], i: usize, k: usize, lo: u8, hi: u8) -> (r: bool)
    requires
        i <= key@.len(),
    ensures
        r == byte_in(key@.skip(i as int), k as int, lo, hi),
{
    k < key.len() - i && lo <= key[i + k] && key[i + k] <= hi
}

/// Length of the well-formed character starting at `key[i]`, or 0.
fn char_len_at(key: &[u8], i: usize) -> (n: usize)
    requires
        i <= key@.len(),
    ensures
        n == utf8_char_len(key@.skip(i as int)),
{
    if in_range(key, i, 0, 0x00, 0x7F) {
        1
    } else if in_range(key, i, 0, 0xC2, 0xDF) && in_range(key, i, 1, 0x80, 0xBF) {
        2
    } else if ((in_range(key, i, 0, 0xE0, 0xE0) && in_range(key, i, 1, 0xA0, 0xBF))
        || (in_range(key, i, 0, 0xE1, 0xEC) && in_range(key, i, 1, 0x80, 0xBF))
        || (in_range(key, i, 0, 0xED, 0xED) && in_range(key, i, 1, 0x80, 0x9F))
        || (in_range(key, i, 0, 0xEE, 0xEF) && in_range(key, i, 1, 0x80, 0xBF)))
        && in_range(key, i, 2, 0x80, 0xBF) {
        3
    } else if ((in_range(key, i, 0, 0xF0, 0xF0) && in_range(key, i, 1, 0x90, 0xBF))
        || (in_range(key, i, 0, 0xF1, 0xF3) && in_range(key, i, 1, 0x80, 0xBF))
        || (in_range(key, i, 0, 0xF4, 0xF4) && in_range(key, i, 1, 0x80, 0x8F)))
        && in_range(key, i, 2, 0x80, 0xBF) && in_range(key, i, 3, 0x80, 0xBF) {
        4
    } else {
        0
    }
}

/// Checks that `key` is valid UTF-8; on failure, reports how far it was.
pub fn check_key(key: &[u8]) -> (r: Result<(), KeyEncodingError>)
    ensures
        r is Ok <==> valid_utf8(key@),
        r matches Err(e) ==> e.valid_up_to == utf8_valid_up_to(key@),
{
    let mut i: usize = 0;
    assert(key@.skip(0) =~= key@);
    while i < key.len()
        invariant
            i <= key@.len(),
            valid_utf8(key@) == valid_utf8(key@.skip(i as int)),
            utf8_valid_up_to(key@) == i + utf8_valid_up_to(key@.skip(i as int)),
        decreases key@.len() - i,
    {
        let n = char_len_at(key, i);
        let ghost s = key@.skip(i as int);
        if n == 0 || n > key.len() - i {
            return Err(KeyEncodingError { valid_up_to: i });
        }
        assert(s.skip(n as int) =~= key@.skip(i + n));
        i = i + n;
    }
    assert(key@.skip(i as int) =~= Seq::<u8>::empty());
    Ok(())
}

/// The bytes of `.key`, the suffix of a key's file name.
pub open spec fn key_suffix() -> Seq<u8> {
    seq![0x2Eu8, 0x6Bu8, 0x65u8, 0x79u8]
}

/// The bytes of `.tmp`, added to a key's file name while its value is written.
pub open spec fn temp_suffix() -> Seq<u8> {
    seq![0x2Eu8, 0x74u8, 0x6Du8, 0x70u8]
}

/// The name of the file that holds the value of `key`: `<key>.key`.
pub open spec fn key_file_name(key: Seq<u8>) -> Seq<u8> {
    key + key_suffix()
}

/// The name of the file a value of `key` is written to first: `<key>.key.tmp`.
pub open spec fn temp_file_name(key: Seq<u8>) -> Seq<u8> {
    key_file_name(key) + temp_suffix()
}

/// Distinct keys have distinct file names.
pub proof fn lemma_key_file_names_distinct(k1: Seq<u8>, k2: Seq<u8>)
    requires
        k1 != k2,
    ensures
        key_file_name(k1) != key_file_name(k2),
{
    if key_file_name(k1) == key_file_name(k2) {
        assert(key_suffix().len() == 4);
        assert(key_file_name(k1).len() == k1.len() + 4);
        assert(key_file_name(k2).len() == k2.len() + 4);
        assert(k1.len() == k2.len());
        assert(k1 =~= key_file_name(k1).take(k1.len() as int));
        assert(k2 =~= key_file_name(k2).take(k2.len() as int));
        assert(k1 =~= k2);
    }
}

/// No temporary file name is the file name of a key.
pub proof fn lemma_temp_name_not_key_name(k1: Seq<u8>, k2: Seq<u8>)
    ensures
        temp_file_name(k1) != key_file_name(k2),
{
    let t = temp_file_name(k1);
    let f = key_file_name(k2);
    assert(t.last() == 0x70u8);
    assert(f.last() == 0x79u8);
}

/// Appends the bytes of `s` to `v`.
pub(crate) fn push_bytes(v: &mut Vec<u8>, s: &[u8])
    requires
        old(v)@.len() + s@.len() <= usize::MAX,
    ensures
        final(v)@ == old(v)@ + s@,
{
    let mut i: usize = 0;
    while i < s.len()
        invariant
            i <= s@.len(),
            v@ == old(v)@ + s@.take(i as int),
        decreases s@.len() - i,
    {
        v.push(s[i]);
        i = i + 1;
        assert(v@ =~= old(v)@ + s@.take(i as int));
    }
    assert(s@.take(i as int) =~= s@);
}

/// Appends `.key` to `v`.
pub(crate) fn push_key_suffix(v: &mut Vec<u8>)
    ensures
        final(v)@ == old(v)@ + key_suffix(),
{
    v.push(0x2E);
    v.push(0x6B);
    v.push(0x65);
    v.push(0x79);
    assert(v@ =~= old(v)@ + key_suffix());
}

/// Appends `.tmp` to `v`.
pub(crate) fn push_temp_suffix(v: &mut Vec<u8>)
    ensures
        final(v)@ == old(v)@ + temp_suffix(),
{
    v.push(0x2E);
    v.push(0x74);
    v.push(0x6D);
    v.push(0x70);
    assert(v@ =~= old(v)@ + temp_suffix());
}

} // verus!
