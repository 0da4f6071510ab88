//! File names derived from URLs.

use vstd::prelude::*;
use std::collections::hash_map::DefaultHasher;
use std::hash::Hasher;
use vstd::std_specs::hash::DefaultHasherAdditionalSpecFns;
use crate::text::{
    decimal, decimal_string, split, split_spec, lemma_split_nonempty, lemma_split_pieces_free,
    lemma_decimal_digits,
};

verus! {

/// The extension of a URL: what follows its last `.` (the whole URL when it
/// has none).
pub open spec fn file_ext_spec(url: Seq<char>) -> Seq<char> {
    split_spec(url, '.').last()
}

/// The writes that hashing a string makes: its UTF-8 bytes, then the byte
/// `0xff` that ends every string.
pub open spec fn str_hash_writes(text: Seq<char>) -> Seq<Seq<u8>> {
    seq![vstd::utf8::encode_utf8(text), seq![0xffu8]]
}

/// The decimal rendering of the `DefaultHasher` hash of a string.
pub open spec fn hash_string_spec(text: Seq<char>) -> Seq<char> {
    decimal(DefaultHasher::spec_finish(str_hash_writes(text)) as nat)
}

/// The extension of `url`: the piece after its last `.`.
pub fn get_file_ext(url: &str) -> (r: String)
    ensures
        r@ == file_ext_spec(url@),
{
    let pieces = split(url, '.');
    proof {
        lemma_split_nonempty(url@, '.');
    }
    let last = pieces.len() - 1;
    let r = pieces[last].clone();
    r
}

/// The hash of `text` by a fresh `DefaultHasher`, in decimal.
pub fn hash_string(text: &str) -> (r: String)
    ensures
        r@ == hash_string_spec(text@),
{
    let mut hasher = DefaultHasher::new();
    hasher.write(text.as_bytes());
    let end: [u8; 1] = [0xffu8];
    let tail = end.as_slice();
    assert(tail@ =~= seq![0xffu8]);
    hasher.write(tail);
    let h = hasher.finish();
    proof {
        assert(hasher@ =~= str_hash_writes(text@));
    }
    decimal_string(h)
}

/// An extension holds no `.`, and a hash string is a non-empty run of
/// decimal digits.
pub proof fn law_file_names_are_plain(url: Seq<char>, text: Seq<char>)
    ensures
        !file_ext_spec(url).contains('.'),
        hash_string_spec(text).len() >= 1,
        forall|i: int|
            0 <= i < hash_string_spec(text).len() ==> '0' <= #[trigger] hash_string_spec(text)[i]
                && hash_string_spec(text)[i] <= '9',
{
    lemma_split_nonempty(url, '.');
    lemma_split_pieces_free(url, '.');
    let pieces = split_spec(url, '.');
    assert(pieces[pieces.len() - 1] == pieces.last());
    lemma_decimal_digits(DefaultHasher::spec_finish(str_hash_writes(text)) as nat);
}

} // verus!
