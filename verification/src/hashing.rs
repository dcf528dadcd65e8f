//! Fingerprints: what is written into a hasher, value by value.
use std::collections::hash_map::DefaultHasher;
use std::hash::Hasher;
use vstd::prelude::*;
use vstd::utf8::encode_utf8;

verus! {

/// A number, as it is written.
pub open spec fn word(value: u64) -> Seq<u8> {
    vstd::bytes::spec_u64_to_le_bytes(value)
}

/// A flag, as the number that is written for it.
pub open spec fn flag(value: bool) -> u64 {
    if value {
        1
    } else {
        0
    }
}

/// An optional number, as the numbers that are written for it.
pub open spec fn optional_words(value: Option<u64>) -> Seq<Seq<u8>> {
    match value {
        Some(v) => seq![word(1), word(v)],
        None => seq![word(0)],
    }
}

/// A text, as it is written: its bytes and a byte that no text holds.
pub open spec fn text_words(text: Seq<char>) -> Seq<Seq<u8>> {
    seq![encode_utf8(text), seq![0xffu8]]
}

/// Texts, as they are written: how many there are, and each of them.
pub open spec fn texts_words(list: Seq<Seq<char>>) -> Seq<Seq<u8>>
    decreases list.len(),
{
    if list.len() == 0 {
        Seq::empty()
    } else {
        texts_words(list.drop_last()) + text_words(list.last())
    }
}

/// Writes a number.
pub fn write_word(hasher: &mut DefaultHasher, value: u64)
    ensures
        final(hasher)@ == old(hasher)@.push(word(value)),
{
    let bytes: Vec<u8> = vstd::bytes::u64_to_le_bytes(value);
    hasher.write(bytes.as_slice());
}

/// Writes a flag.
pub fn write_flag(hasher: &mut DefaultHasher, value: bool)
    ensures
        final(hasher)@ == old(hasher)@.push(word(flag(value))),
{
    if value {
        write_word(hasher, 1);
    } else {
        write_word(hasher, 0);
    }
}

/// Writes an optional number.
pub fn write_optional(hasher: &mut DefaultHasher, value: Option<u64>)
    ensures
        final(hasher)@ == old(hasher)@ + optional_words(value),
{
    match value {
        Some(v) => {
            write_word(hasher, 1);
            write_word(hasher, v);
        },
        None => {
            write_word(hasher, 0);
        },
    }
    proof {
        assert(hasher@ =~= old(hasher)@ + optional_words(value));
    }
}

/// Writes a text.
pub fn write_text(hasher: &mut DefaultHasher, text: &str)
    ensures
        final(hasher)@ == old(hasher)@ + text_words(text@),
{
    hasher.write(text.as_bytes());
    let mut end: Vec<u8> = Vec::new();
    end.push(0xff);
    hasher.write(end.as_slice());
    proof {
        assert(end@ =~= seq![0xffu8]);
        assert(hasher@ =~= old(hasher)@ + text_words(text@));
    }
}

/// Writes how many texts there are, and each of them.
pub fn write_texts(hasher: &mut DefaultHasher, list: &Vec<String>)
    ensures
        final(hasher)@ == old(hasher)@.push(word(list@.len() as u64)) + texts_words(
            crate::text::texts(list@),
        ),
{
    let ghost all = crate::text::texts(list@);
    write_word(hasher, list.len() as u64);
    let ghost start = hasher@;
    let mut i: usize = 0;
    proof {
        assert(all.take(0) =~= Seq::<Seq<char>>::empty());
        assert(start + Seq::<Seq<u8>>::empty() =~= start);
    }
    while i < list.len()
        invariant
            i <= list@.len(),
            all == crate::text::texts(list@),
            hasher@ == start + texts_words(all.take(i as int)),
        decreases list.len() - i,
    {
        write_text(hasher, list[i].as_str());
        proof {
            assert(all.take(i + 1).drop_last() =~= all.take(i as int));
            assert(all.take(i + 1).last() == list@[i as int]@);
            assert(hasher@ =~= start + texts_words(all.take(i + 1)));
        }
        i += 1;
    }
    proof {
        assert(all.take(i as int) =~= all);
    }
}

} // verus!
