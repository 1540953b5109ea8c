//! The building blocks of the payload's binary format: numbers, words, byte
//! strings and lists, each with its encoder, its decoder and the proof that
//! the decoder undoes the encoder.
use crate::bytes::{
    append, copy_range, le_repr, le_value, lemma_le_repr_len, lemma_le_repr_of_value,
    lemma_le_value_of_repr, lemma_le_value_u64, lemma_u64_fits, push_u64_le, read_u64_le, word_at,
    B256,
};
use vstd::prelude::*;

verus! {

/// The views of a list of words.
pub open spec fn words_view(words: Seq<B256>) -> Seq<Seq<u8>> {
    Seq::new(words.len(), |i: int| words[i]@)
}

/// The views of a list of byte strings.
pub open spec fn items_view(items: Seq<Vec<u8>>) -> Seq<Seq<u8>> {
    Seq::new(items.len(), |i: int| items[i]@)
}

/// A 64-bit number: its eight little-endian bytes.
pub open spec fn enc_u64(x: u64) -> Seq<u8> {
    le_repr(x as nat, 8)
}

/// A byte string: its length as a 64-bit number, then its bytes.
pub open spec fn enc_bytes(b: Seq<u8>) -> Seq<u8> {
    enc_u64(b.len() as u64) + b
}

/// Byte strings one after the other, each with its length before it.
pub open spec fn enc_items(items: Seq<Seq<u8>>) -> Seq<u8>
    decreases items.len(),
{
    if items.len() == 0 {
        Seq::empty()
    } else {
        enc_items(items.drop_last()) + enc_bytes(items.last())
    }
}

/// A list of byte strings: their number, then the strings.
pub open spec fn enc_list(items: Seq<Seq<u8>>) -> Seq<u8> {
    enc_u64(items.len() as u64) + enc_items(items)
}

/// Words one after the other.
pub open spec fn enc_word_items(words: Seq<Seq<u8>>) -> Seq<u8>
    decreases words.len(),
{
    if words.len() == 0 {
        Seq::empty()
    } else {
        enc_word_items(words.drop_last()) + words.last()
    }
}

/// A list of words: their number, then the words.
pub open spec fn enc_words(words: Seq<Seq<u8>>) -> Seq<u8> {
    enc_u64(words.len() as u64) + enc_word_items(words)
}

/// Whether every one of `words` has 32 bytes.
pub open spec fn all_words(words: Seq<Seq<u8>>) -> bool {
    forall|i: int| 0 <= i < words.len() ==> (#[trigger] words[i]).len() == 32
}

/// Whether every one of `items` has a length that fits in 64 bits.
pub open spec fn all_sized(items: Seq<Seq<u8>>) -> bool {
    forall|i: int| 0 <= i < items.len() ==> (#[trigger] items[i]).len() <= u64::MAX
}

/// Reads a 64-bit number off the front of `s`.
pub open spec fn dec_u64(s: Seq<u8>) -> Option<(u64, Seq<u8>)> {
    if s.len() >= 8 {
        Some((le_value(s.take(8)) as u64, s.skip(8)))
    } else {
        None
    }
}

/// Reads a word off the front of `s`.
pub open spec fn dec_word(s: Seq<u8>) -> Option<(Seq<u8>, Seq<u8>)> {
    if s.len() >= 32 {
        Some((s.take(32), s.skip(32)))
    } else {
        None
    }
}

/// Reads a byte string off the front of `s`.
pub open spec fn dec_bytes(s: Seq<u8>) -> Option<(Seq<u8>, Seq<u8>)> {
    match dec_u64(s) {
        Some((n, rest)) => if n <= rest.len() {
            Some((rest.take(n as int), rest.skip(n as int)))
        } else {
            None
        },
        None => None,
    }
}

/// Reads `count` byte strings off the front of `s` and adds them to `acc`.
pub open spec fn dec_items(
    s: Seq<u8>,
    count: nat,
    acc: Seq<Seq<u8>>,
) -> Option<(Seq<Seq<u8>>, Seq<u8>)>
    decreases count,
{
    if count == 0 {
        Some((acc, s))
    } else {
        match dec_bytes(s) {
            Some((item, rest)) => dec_items(rest, (count - 1) as nat, acc.push(item)),
            None => None,
        }
    }
}

/// Reads a list of byte strings off the front of `s`.
pub open spec fn dec_list(s: Seq<u8>) -> Option<(Seq<Seq<u8>>, Seq<u8>)> {
    match dec_u64(s) {
        Some((n, rest)) => dec_items(rest, n as nat, Seq::empty()),
        None => None,
    }
}

/// Reads `count` words off the front of `s` and adds them to `acc`.
pub open spec fn dec_word_items(
    s: Seq<u8>,
    count: nat,
    acc: Seq<Seq<u8>>,
) -> Option<(Seq<Seq<u8>>, Seq<u8>)>
    decreases count,
{
    if count == 0 {
        Some((acc, s))
    } else {
        match dec_word(s) {
            Some((word, rest)) => dec_word_items(rest, (count - 1) as nat, acc.push(word)),
            None => None,
        }
    }
}

/// Reads a list of words off the front of `s`.
pub open spec fn dec_words(s: Seq<u8>) -> Option<(Seq<Seq<u8>>, Seq<u8>)> {
    match dec_u64(s) {
        Some((n, rest)) => dec_word_items(rest, n as nat, Seq::empty()),
        None => None,
    }
}

/// Decoding an encoded number gives the number and what followed it.
pub proof fn lemma_dec_enc_u64(x: u64, rest: Seq<u8>)
    ensures
        dec_u64(enc_u64(x) + rest) == Some((x, rest)),
{
    lemma_le_repr_len(x as nat, 8);
    lemma_u64_fits(x);
    lemma_le_value_of_repr(x as nat, 8);
    assert((enc_u64(x) + rest).take(8) =~= enc_u64(x));
    assert((enc_u64(x) + rest).skip(8) =~= rest);
}

/// Decoding a word gives the word and what followed it.
pub proof fn lemma_dec_enc_word(w: Seq<u8>, rest: Seq<u8>)
    requires
        w.len() == 32,
    ensures
        dec_word(w + rest) == Some((w, rest)),
{
    assert((w + rest).take(32) =~= w);
    assert((w + rest).skip(32) =~= rest);
}

/// Decoding an encoded byte string gives the string and what followed it.
pub proof fn lemma_dec_enc_bytes(b: Seq<u8>, rest: Seq<u8>)
    requires
        b.len() <= u64::MAX,
    ensures
        dec_bytes(enc_bytes(b) + rest) == Some((b, rest)),
{
    lemma_dec_enc_u64(b.len() as u64, b + rest);
    assert(enc_bytes(b) + rest =~= enc_u64(b.len() as u64) + (b + rest));
    assert((b + rest).take(b.len() as int) =~= b);
    assert((b + rest).skip(b.len() as int) =~= rest);
}

/// The encoding of a list of strings starts with that of its first string.
pub proof fn lemma_enc_items_first(items: Seq<Seq<u8>>)
    requires
        items.len() > 0,
    ensures
        enc_items(items) == enc_bytes(items.first()) + enc_items(items.drop_first()),
    decreases items.len(),
{
    if items.len() == 1 {
        assert(items.drop_last() =~= Seq::<Seq<u8>>::empty());
        assert(items.drop_first() =~= Seq::<Seq<u8>>::empty());
        assert(enc_items(items) =~= enc_bytes(items.first()) + enc_items(items.drop_first()));
    } else {
        lemma_enc_items_first(items.drop_last());
        assert(items.drop_last().drop_first() =~= items.drop_first().drop_last());
        assert(items.drop_first().last() == items.last());
        assert(items.drop_last().first() == items.first());
        assert(enc_items(items) =~= enc_bytes(items.first()) + enc_items(items.drop_first()));
    }
}

/// Decoding encoded strings gives the strings and what followed them.
pub proof fn lemma_dec_enc_items(items: Seq<Seq<u8>>, rest: Seq<u8>, acc: Seq<Seq<u8>>)
    requires
        all_sized(items),
    ensures
        dec_items(enc_items(items) + rest, items.len(), acc) == Some((acc + items, rest)),
    decreases items.len(),
{
    if items.len() == 0 {
        assert(enc_items(items) + rest =~= rest);
        assert(acc + items =~= acc);
    } else {
        let tail = items.drop_first();
        lemma_enc_items_first(items);
        assert(enc_items(items) + rest =~= enc_bytes(items.first()) + (enc_items(tail) + rest));
        lemma_dec_enc_bytes(items.first(), enc_items(tail) + rest);
        assert(all_sized(tail)) by {
            assert forall|i: int| 0 <= i < tail.len() implies (#[trigger] tail[i]).len()
                <= u64::MAX by {
                assert(tail[i] == items[i + 1]);
            }
        }
        lemma_dec_enc_items(tail, rest, acc.push(items.first()));
        assert(acc.push(items.first()) + tail =~= acc + items);
    }
}

/// Decoding an encoded list of strings gives the list and what followed it.
pub proof fn lemma_dec_enc_list(items: Seq<Seq<u8>>, rest: Seq<u8>)
    requires
        all_sized(items),
        items.len() <= u64::MAX,
    ensures
        dec_list(enc_list(items) + rest) == Some((items, rest)),
{
    lemma_dec_enc_u64(items.len() as u64, enc_items(items) + rest);
    assert(enc_list(items) + rest =~= enc_u64(items.len() as u64) + (enc_items(items) + rest));
    lemma_dec_enc_items(items, rest, Seq::empty());
    assert(Seq::<Seq<u8>>::empty() + items =~= items);
}

/// The encoding of a list of words starts with its first word.
pub proof fn lemma_enc_word_items_first(words: Seq<Seq<u8>>)
    requires
        words.len() > 0,
    ensures
        enc_word_items(words) == words.first() + enc_word_items(words.drop_first()),
    decreases words.len(),
{
    if words.len() == 1 {
        assert(words.drop_last() =~= Seq::<Seq<u8>>::empty());
        assert(words.drop_first() =~= Seq::<Seq<u8>>::empty());
        assert(enc_word_items(words) =~= words.first() + enc_word_items(words.drop_first()));
    } else {
        lemma_enc_word_items_first(words.drop_last());
        assert(words.drop_last().drop_first() =~= words.drop_first().drop_last());
        assert(words.drop_first().last() == words.last());
        assert(words.drop_last().first() == words.first());
        assert(enc_word_items(words) =~= words.first() + enc_word_items(words.drop_first()));
    }
}

/// Decoding encoded words gives the words and what followed them.
pub proof fn lemma_dec_enc_word_items(words: Seq<Seq<u8>>, rest: Seq<u8>, acc: Seq<Seq<u8>>)
    requires
        all_words(words),
    ensures
        dec_word_items(enc_word_items(words) + rest, words.len(), acc) == Some(
            (acc + words, rest),
        ),
    decreases words.len(),
{
    if words.len() == 0 {
        assert(enc_word_items(words) + rest =~= rest);
        assert(acc + words =~= acc);
    } else {
        let tail = words.drop_first();
        lemma_enc_word_items_first(words);
        assert(enc_word_items(words) + rest =~= words.first() + (enc_word_items(tail) + rest));
        lemma_dec_enc_word(words.first(), enc_word_items(tail) + rest);
        assert(all_words(tail)) by {
            assert forall|i: int| 0 <= i < tail.len() implies (#[trigger] tail[i]).len()
                == 32 by {
                assert(tail[i] == words[i + 1]);
            }
        }
        lemma_dec_enc_word_items(tail, rest, acc.push(words.first()));
        assert(acc.push(words.first()) + tail =~= acc + words);
    }
}

/// Decoding an encoded list of words gives the list and what followed it.
pub proof fn lemma_dec_enc_words(words: Seq<Seq<u8>>, rest: Seq<u8>)
    requires
        all_words(words),
        words.len() <= u64::MAX,
    ensures
        dec_words(enc_words(words) + rest) == Some((words, rest)),
{
    lemma_dec_enc_u64(words.len() as u64, enc_word_items(words) + rest);
    assert(enc_words(words) + rest =~= enc_u64(words.len() as u64) + (enc_word_items(words)
        + rest));
    lemma_dec_enc_word_items(words, rest, Seq::empty());
    assert(Seq::<Seq<u8>>::empty() + words =~= words);
}

/// What follows a concatenation can as well follow its second part.
pub proof fn lemma_concat_assoc(a: Seq<u8>, b: Seq<u8>, rest: Seq<u8>)
    ensures
        (a + b) + rest == a + (b + rest),
{
    assert((a + b) + rest =~= a + (b + rest));
}

/// A number can be decoded only from its own encoding.
pub proof fn lemma_enc_dec_u64(s: Seq<u8>)
    requires
        dec_u64(s) is Some,
    ensures
        enc_u64(dec_u64(s).unwrap().0) + dec_u64(s).unwrap().1 == s,
{
    lemma_le_value_u64(s.take(8));
    lemma_le_repr_of_value(s.take(8));
    assert(s.take(8) + s.skip(8) =~= s);
}

/// A word can be decoded only from itself.
pub proof fn lemma_enc_dec_word(s: Seq<u8>)
    requires
        dec_word(s) is Some,
    ensures
        dec_word(s).unwrap().0 + dec_word(s).unwrap().1 == s,
        dec_word(s).unwrap().0.len() == 32,
{
    assert(s.take(32) + s.skip(32) =~= s);
}

/// A byte string can be decoded only from its own encoding.
pub proof fn lemma_enc_dec_bytes(s: Seq<u8>)
    requires
        dec_bytes(s) is Some,
    ensures
        enc_bytes(dec_bytes(s).unwrap().0) + dec_bytes(s).unwrap().1 == s,
        dec_bytes(s).unwrap().0.len() <= u64::MAX,
{
    lemma_enc_dec_u64(s);
    let n = dec_u64(s).unwrap().0;
    let rest = dec_u64(s).unwrap().1;
    assert(rest.take(n as int) + rest.skip(n as int) =~= rest);
    assert(enc_bytes(rest.take(n as int)) + rest.skip(n as int) =~= enc_u64(n) + rest);
}

/// Byte strings can be decoded only from their own encodings: what was
/// decoded is what had been decoded before and `count` strings more, whose
/// encodings the input starts with.
pub proof fn lemma_enc_dec_items(s: Seq<u8>, count: nat, acc: Seq<Seq<u8>>)
    requires
        dec_items(s, count, acc) is Some,
    ensures
        dec_items(s, count, acc).unwrap().0.len() == acc.len() + count,
        dec_items(s, count, acc).unwrap().0.take(acc.len() as int) == acc,
        enc_items(dec_items(s, count, acc).unwrap().0.skip(acc.len() as int)) + dec_items(
            s,
            count,
            acc,
        ).unwrap().1 == s,
        all_sized(dec_items(s, count, acc).unwrap().0.skip(acc.len() as int)),
    decreases count,
{
    let items = dec_items(s, count, acc).unwrap().0;
    let rest = dec_items(s, count, acc).unwrap().1;
    if count == 0 {
        assert(items.take(acc.len() as int) =~= acc);
        assert(items.skip(acc.len() as int) =~= Seq::<Seq<u8>>::empty());
        assert(enc_items(Seq::<Seq<u8>>::empty()) + rest =~= s);
    } else {
        let item = dec_bytes(s).unwrap().0;
        let after = dec_bytes(s).unwrap().1;
        lemma_enc_dec_bytes(s);
        lemma_enc_dec_items(after, (count - 1) as nat, acc.push(item));
        let tail = items.skip((acc.len() + 1) as int);
        assert(items.take((acc.len() + 1) as int) == acc.push(item));
        assert(items.take(acc.len() as int) =~= acc) by {
            assert(items.take((acc.len() + 1) as int).take(acc.len() as int) =~= items.take(
                acc.len() as int,
            ));
        }
        assert(items[acc.len() as int] == item) by {
            assert(items.take((acc.len() + 1) as int)[acc.len() as int] == item);
        }
        let mine = items.skip(acc.len() as int);
        assert(mine.first() == item);
        assert(mine.drop_first() =~= tail);
        lemma_enc_items_first(mine);
        assert(enc_items(mine) + rest =~= enc_bytes(item) + (enc_items(tail) + rest));
        assert forall|i: int| 0 <= i < mine.len() implies (#[trigger] mine[i]).len()
            <= u64::MAX by {
            if i > 0 {
                assert(mine[i] == tail[i - 1]);
            }
        }
    }
}

/// A list of byte strings can be decoded only from its own encoding.
pub proof fn lemma_enc_dec_list(s: Seq<u8>)
    requires
        dec_list(s) is Some,
    ensures
        enc_list(dec_list(s).unwrap().0) + dec_list(s).unwrap().1 == s,
        dec_list(s).unwrap().0.len() <= u64::MAX,
        all_sized(dec_list(s).unwrap().0),
{
    lemma_enc_dec_u64(s);
    let n = dec_u64(s).unwrap().0;
    let after = dec_u64(s).unwrap().1;
    lemma_enc_dec_items(after, n as nat, Seq::empty());
    let items = dec_list(s).unwrap().0;
    assert(items.skip(0) =~= items);
    assert(enc_list(items) + dec_list(s).unwrap().1 =~= enc_u64(n) + after);
}

/// Words can be decoded only from themselves.
pub proof fn lemma_enc_dec_word_items(s: Seq<u8>, count: nat, acc: Seq<Seq<u8>>)
    requires
        dec_word_items(s, count, acc) is Some,
    ensures
        dec_word_items(s, count, acc).unwrap().0.len() == acc.len() + count,
        dec_word_items(s, count, acc).unwrap().0.take(acc.len() as int) == acc,
        enc_word_items(dec_word_items(s, count, acc).unwrap().0.skip(acc.len() as int))
            + dec_word_items(s, count, acc).unwrap().1 == s,
        all_words(dec_word_items(s, count, acc).unwrap().0.skip(acc.len() as int)),
    decreases count,
{
    let words = dec_word_items(s, count, acc).unwrap().0;
    let rest = dec_word_items(s, count, acc).unwrap().1;
    if count == 0 {
        assert(words.take(acc.len() as int) =~= acc);
        assert(words.skip(acc.len() as int) =~= Seq::<Seq<u8>>::empty());
        assert(enc_word_items(Seq::<Seq<u8>>::empty()) + rest =~= s);
    } else {
        let word = dec_word(s).unwrap().0;
        let after = dec_word(s).unwrap().1;
        lemma_enc_dec_word(s);
        lemma_enc_dec_word_items(after, (count - 1) as nat, acc.push(word));
        let tail = words.skip((acc.len() + 1) as int);
        assert(words.take((acc.len() + 1) as int) == acc.push(word));
        assert(words.take(acc.len() as int) =~= acc) by {
            assert(words.take((acc.len() + 1) as int).take(acc.len() as int) =~= words.take(
                acc.len() as int,
            ));
        }
        assert(words[acc.len() as int] == word) by {
            assert(words.take((acc.len() + 1) as int)[acc.len() as int] == word);
        }
        let mine = words.skip(acc.len() as int);
        assert(mine.first() == word);
        assert(mine.drop_first() =~= tail);
        lemma_enc_word_items_first(mine);
        assert(enc_word_items(mine) + rest =~= word + (enc_word_items(tail) + rest));
        assert forall|i: int| 0 <= i < mine.len() implies (#[trigger] mine[i]).len() == 32 by {
            if i > 0 {
                assert(mine[i] == tail[i - 1]);
            }
        }
    }
}

/// A list of words can be decoded only from its own encoding.
pub proof fn lemma_enc_dec_words(s: Seq<u8>)
    requires
        dec_words(s) is Some,
    ensures
        enc_words(dec_words(s).unwrap().0) + dec_words(s).unwrap().1 == s,
        dec_words(s).unwrap().0.len() <= u64::MAX,
        all_words(dec_words(s).unwrap().0),
{
    lemma_enc_dec_u64(s);
    let n = dec_u64(s).unwrap().0;
    let after = dec_u64(s).unwrap().1;
    lemma_enc_dec_word_items(after, n as nat, Seq::empty());
    let words = dec_words(s).unwrap().0;
    assert(words.skip(0) =~= words);
    assert(enc_words(words) + dec_words(s).unwrap().1 =~= enc_u64(n) + after);
}

/// Appends the encoding of a number.
pub fn put_u64(out: &mut Vec<u8>, x: u64)
    ensures
        final(out)@ == old(out)@ + enc_u64(x),
{
    push_u64_le(out, x);
}

/// Appends a word.
pub fn put_word(out: &mut Vec<u8>, w: &B256)
    ensures
        final(out)@ == old(out)@ + w@,
{
    append(out, w.as_slice());
}

/// Appends the encoding of a byte string.
pub fn put_bytes(out: &mut Vec<u8>, b: &[u8])
    ensures
        final(out)@ == old(out)@ + enc_bytes(b@),
{
    put_u64(out, b.len() as u64);
    append(out, b);
    assert(out@ =~= old(out)@ + enc_bytes(b@));
}

/// Appends the encoding of a list of byte strings.
pub fn put_list(out: &mut Vec<u8>, items: &Vec<Vec<u8>>)
    ensures
        final(out)@ == old(out)@ + enc_list(items_view(items@)),
{
    let n = items.len();
    put_u64(out, n as u64);
    let ghost all = items_view(items@);
    let mut i: usize = 0;
    proof {
        assert(all.take(0) =~= Seq::<Seq<u8>>::empty());
        assert(out@ =~= old(out)@ + enc_u64(n as u64) + enc_items(all.take(0)));
    }
    while i < n
        invariant
            i <= n,
            n == items@.len(),
            all == items_view(items@),
            out@ == old(out)@ + enc_u64(n as u64) + enc_items(all.take(i as int)),
        decreases n - i,
    {
        let ghost before = out@;
        put_bytes(out, items[i].as_slice());
        proof {
            let next = all.take(i + 1);
            assert(next.drop_last() =~= all.take(i as int));
            assert(next.last() == items@[i as int]@);
            assert(out@ =~= old(out)@ + enc_u64(n as u64) + enc_items(next));
        }
        i += 1;
    }
    proof {
        assert(all.take(n as int) =~= all);
        assert(out@ =~= old(out)@ + enc_list(all));
    }
}

/// Appends the encoding of a list of words.
pub fn put_words(out: &mut Vec<u8>, words: &Vec<B256>)
    ensures
        final(out)@ == old(out)@ + enc_words(words_view(words@)),
{
    let n = words.len();
    put_u64(out, n as u64);
    let ghost all = words_view(words@);
    let mut i: usize = 0;
    proof {
        assert(all.take(0) =~= Seq::<Seq<u8>>::empty());
        assert(out@ =~= old(out)@ + enc_u64(n as u64) + enc_word_items(all.take(0)));
    }
    while i < n
        invariant
            i <= n,
            n == words@.len(),
            all == words_view(words@),
            out@ == old(out)@ + enc_u64(n as u64) + enc_word_items(all.take(i as int)),
        decreases n - i,
    {
        put_word(out, &words[i]);
        proof {
            let next = all.take(i + 1);
            assert(next.drop_last() =~= all.take(i as int));
            assert(next.last() == words@[i as int]@);
            assert(out@ =~= old(out)@ + enc_u64(n as u64) + enc_word_items(next));
        }
        i += 1;
    }
    proof {
        assert(all.take(n as int) =~= all);
        assert(out@ =~= old(out)@ + enc_words(all));
    }
}

/// Reads the number encoded at `pos`; gives it with the position after it.
pub fn take_u64(data: &[u8], pos: usize) -> (r: Option<(u64, usize)>)
    requires
        pos <= data@.len(),
    ensures
        match r {
            Some((x, next)) => pos <= next <= data@.len() && dec_u64(data@.skip(pos as int))
                == Some((x, data@.skip(next as int))),
            None => dec_u64(data@.skip(pos as int)) is None,
        },
{
    if data.len() - pos < 8 {
        return None;
    }
    let x = read_u64_le(data, pos);
    proof {
        let s = data@.skip(pos as int);
        assert(s.take(8) =~= data@.subrange(pos as int, pos + 8));
        assert(s.skip(8) =~= data@.skip(pos + 8));
        lemma_le_value_u64(s.take(8));
    }
    Some((x, pos + 8))
}

/// Reads the word at `pos`; gives it with the position after it.
pub fn take_word(data: &[u8], pos: usize) -> (r: Option<(B256, usize)>)
    requires
        pos <= data@.len(),
    ensures
        match r {
            Some((w, next)) => pos <= next <= data@.len() && dec_word(data@.skip(pos as int))
                == Some((w@, data@.skip(next as int))),
            None => dec_word(data@.skip(pos as int)) is None,
        },
{
    if data.len() - pos < 32 {
        return None;
    }
    let w = word_at(data, pos);
    proof {
        let s = data@.skip(pos as int);
        assert(s.take(32) =~= data@.subrange(pos as int, pos + 32));
        assert(s.skip(32) =~= data@.skip(pos + 32));
    }
    Some((w, pos + 32))
}

/// Reads the byte string encoded at `pos`; gives it with the position after it.
pub fn take_bytes(data: &[u8], pos: usize) -> (r: Option<(Vec<u8>, usize)>)
    requires
        pos <= data@.len(),
    ensures
        match r {
            Some((b, next)) => pos <= next <= data@.len() && dec_bytes(data@.skip(pos as int))
                == Some((b@, data@.skip(next as int))),
            None => dec_bytes(data@.skip(pos as int)) is None,
        },
{
    let (n, start) = match take_u64(data, pos) {
        Some(pair) => pair,
        None => {
            return None;
        },
    };
    if n > (data.len() - start) as u64 {
        proof {
            assert(data@.skip(start as int).len() == data@.len() - start);
        }
        return None;
    }
    let end = start + n as usize;
    let b = copy_range(data, start, end);
    proof {
        let rest = data@.skip(start as int);
        assert(rest.take(n as int) =~= data@.subrange(start as int, end as int));
        assert(rest.skip(n as int) =~= data@.skip(end as int));
    }
    Some((b, end))
}

/// Reads the list of byte strings encoded at `pos`; gives it with the position after it.
pub fn take_list(data: &[u8], pos: usize) -> (r: Option<(Vec<Vec<u8>>, usize)>)
    requires
        pos <= data@.len(),
    ensures
        match r {
            Some((items, next)) => pos <= next <= data@.len() && dec_list(
                data@.skip(pos as int),
            ) == Some((items_view(items@), data@.skip(next as int))),
            None => dec_list(data@.skip(pos as int)) is None,
        },
{
    let (n, start) = match take_u64(data, pos) {
        Some(pair) => pair,
        None => {
            return None;
        },
    };
    let mut items: Vec<Vec<u8>> = Vec::new();
    let mut at: usize = start;
    let mut i: u64 = 0;
    proof {
        assert(items_view(items@) =~= Seq::<Seq<u8>>::empty());
    }
    while i < n
        invariant
            i <= n,
            pos <= at <= data@.len(),
            dec_list(data@.skip(pos as int)) == dec_items(
                data@.skip(at as int),
                (n - i) as nat,
                items_view(items@),
            ),
        decreases n - i,
    {
        let ghost before = items_view(items@);
        match take_bytes(data, at) {
            Some((item, next)) => {
                items.push(item);
                proof {
                    assert(items_view(items@) =~= before.push(item@));
                }
                at = next;
            },
            None => {
                return None;
            },
        }
        i += 1;
    }
    Some((items, at))
}

/// Reads the list of words encoded at `pos`; gives it with the position after it.
pub fn take_words(data: &[u8], pos: usize) -> (r: Option<(Vec<B256>, usize)>)
    requires
        pos <= data@.len(),
    ensures
        match r {
            Some((words, next)) => pos <= next <= data@.len() && dec_words(
                data@.skip(pos as int),
            ) == Some((words_view(words@), data@.skip(next as int))),
            None => dec_words(data@.skip(pos as int)) is None,
        },
{
    let (n, start) = match take_u64(data, pos) {
        Some(pair) => pair,
        None => {
            return None;
        },
    };
    let mut words: Vec<B256> = Vec::new();
    let mut at: usize = start;
    let mut i: u64 = 0;
    proof {
        assert(words_view(words@) =~= Seq::<Seq<u8>>::empty());
    }
    while i < n
        invariant
            i <= n,
            pos <= at <= data@.len(),
            dec_words(data@.skip(pos as int)) == dec_word_items(
                data@.skip(at as int),
                (n - i) as nat,
                words_view(words@),
            ),
        decreases n - i,
    {
        let ghost before = words_view(words@);
        match take_word(data, at) {
            Some((word, next)) => {
                words.push(word);
                proof {
                    assert(words_view(words@) =~= before.push(word@));
                }
                at = next;
            },
            None => {
                return None;
            },
        }
        i += 1;
    }
    Some((words, at))
}

} // verus!
