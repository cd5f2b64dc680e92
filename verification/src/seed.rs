use vstd::prelude::*;
use vstd::string::*;

use crate::rng::{random_u32, rng_from_bytes, seeded_generator};
use crate::text::text_eq;

verus! {

/// The byte that fills a generator's seed behind the four bytes of the value.
pub const SEED_FILLER: u8 = 0xFD;

/// A 32-bit value from which a whole board can be reproduced.
#[derive(Debug, Clone, Copy, PartialEq, Eq, Structural)]
pub struct Seed {
    pub value: u32,
}

/// The byte of `value` at position `index`, counted from the least
/// significant one.
pub open spec fn le_byte(value: u32, index: int) -> u8 {
    ((value >> ((8 * index) as u32)) & 0xff) as u8
}

/// The bytes from which the generator for `value` is made: the value's four
/// bytes, least significant first, then the filler.
pub open spec fn seed_bytes(value: u32) -> Seq<u8> {
    Seq::new(
        32,
        |index: int|
            if index < 4 {
                le_byte(value, index)
            } else {
                SEED_FILLER
            },
    )
}

impl Seed {
    pub fn with_seed(value: u32) -> (seed: Self)
        ensures
            seed.value == value,
    {
        Seed { value }
    }

    /// A seed drawn at random.
    pub fn new_random() -> Self {
        Seed { value: random_u32() }
    }

    /// The bytes from which the generator for this seed is made.
    pub fn to_seed(&self) -> (bytes: [u8; 32])
        ensures
            bytes@ == seed_bytes(self.value),
    {
        let value = self.value;
        let b0: u8 = (value & 0xff) as u8;
        let b1: u8 = ((value >> 8) & 0xff) as u8;
        let b2: u8 = ((value >> 16) & 0xff) as u8;
        let b3: u8 = ((value >> 24) & 0xff) as u8;
        assert(b0 == le_byte(value, 0)) by (bit_vector)
            requires
                b0 == (value & 0xff) as u8,
        ;
        let f = SEED_FILLER;
        let bytes = [
            b0, b1, b2, b3, f, f, f, f, f, f, f, f, f, f, f, f,
            f, f, f, f, f, f, f, f, f, f, f, f, f, f, f, f,
        ];
        assert(bytes@ =~= seed_bytes(value));
        bytes
    }

    /// The generator for this seed: the one that is keyed with the seed's
    /// bytes, with nothing drawn from it yet.
    pub fn to_rng(&self) -> (rng: rand_chacha::ChaCha20Rng)
        ensures
            rng == seeded_generator(seed_bytes(self.value)),
    {
        rng_from_bytes(self.to_seed())
    }
}


/// Number of bits that a seed holds.
pub const VALUE_BITS: usize = 32;

/// The number of bits that one word of a list of `count` words stands for:
/// the largest number of bits whose values all have a word.
pub open spec fn bits_per_word(count: nat) -> nat
    decreases count,
{
    if count < 2 {
        0
    } else {
        1 + bits_per_word(count / 2)
    }
}

/// Two to the power of `bits`.
pub open spec fn two_to(bits: nat) -> nat
    decreases bits,
{
    if bits == 0 {
        1
    } else {
        2 * two_to((bits - 1) as nat)
    }
}

/// The `bits` bits of `value` that start `offset` bits above the lowest.
pub open spec fn group(value: u32, offset: nat, bits: nat) -> u32 {
    (value >> (offset as u32)) & (((1u32 << (bits as u32)) - 1) as u32)
}

/// The number of bits of a value from `offset` bits above the lowest on.
pub open spec fn bits_left(offset: nat) -> nat {
    if offset >= VALUE_BITS {
        0
    } else {
        (VALUE_BITS - offset) as nat
    }
}

/// The groups of `bits` bits that make up `value` from `offset` bits above
/// the lowest on, the lowest group first; the last reaches the top of the
/// value or beyond.
pub open spec fn groups(value: u32, offset: nat, bits: nat) -> Seq<u32>
    decreases bits_left(offset),
{
    if offset >= VALUE_BITS || bits == 0 {
        Seq::empty()
    } else {
        seq![group(value, offset, bits)] + groups(value, offset + bits, bits)
    }
}

/// The words joined by single spaces.
pub open spec fn phrase(words: Seq<Seq<char>>) -> Seq<char>
    decreases words.len(),
{
    if words.len() == 0 {
        Seq::empty()
    } else if words.len() == 1 {
        words[0]
    } else {
        phrase(words.drop_last()) + seq![' '] + words.last()
    }
}

/// The words of a list, as contracts see them.
pub open spec fn alphabet_of(words: Seq<&str>) -> Seq<Seq<char>> {
    Seq::new(words.len(), |index: int| words[index]@)
}

/// The phrase that stands for `value` over `alphabet`: one word for each
/// group of bits, the word at the position that the group gives.
pub open spec fn encoded(value: u32, alphabet: Seq<Seq<char>>) -> Seq<char> {
    phrase(
        groups(value, 0, bits_per_word(alphabet.len())).map_values(
            |index: u32| alphabet[index as int],
        ),
    )
}

/// Whether `c` is white space as Unicode defines it.
pub open spec fn is_whitespace(c: char) -> bool {
    let code = c as u32;
    ||| 0x09 <= code <= 0x0d
    ||| code == 0x20
    ||| code == 0x85
    ||| code == 0xa0
    ||| code == 0x1680
    ||| 0x2000 <= code <= 0x200a
    ||| code == 0x2028
    ||| code == 0x2029
    ||| code == 0x202f
    ||| code == 0x205f
    ||| code == 0x3000
}

/// Reading `text` from the left: the words that have ended, and the letters
/// of the word that has not.
pub open spec fn scan(text: Seq<char>) -> (Seq<Seq<char>>, Seq<char>)
    decreases text.len(),
{
    if text.len() == 0 {
        (Seq::empty(), Seq::empty())
    } else {
        let (done, current) = scan(text.drop_last());
        if is_whitespace(text.last()) {
            if current.len() > 0 {
                (done.push(current), Seq::empty())
            } else {
                (done, current)
            }
        } else {
            (done, current.push(text.last()))
        }
    }
}

/// The words of `text`: its longest runs of characters that are no white
/// space, from left to right.
pub open spec fn split_words(text: Seq<char>) -> Seq<Seq<char>> {
    let (done, current) = scan(text);
    if current.len() > 0 {
        done.push(current)
    } else {
        done
    }
}

/// Whether `index` is the first position of `word` in `alphabet`.
pub open spec fn is_first_index(alphabet: Seq<Seq<char>>, word: Seq<char>, index: int) -> bool {
    &&& 0 <= index < alphabet.len()
    &&& alphabet[index] == word
    &&& forall|earlier: int| 0 <= earlier < index ==> alphabet[earlier] != word
}

/// The first position of `word` in `alphabet`.
pub open spec fn first_index(alphabet: Seq<Seq<char>>, word: Seq<char>) -> int {
    choose|index: int| is_first_index(alphabet, word, index)
}

/// The value that takes up `indices` in turn: each is shifted left by the
/// bits of those before it and joined to `value` bit by bit. There is no
/// value where an index would be shifted beyond the top, or where the
/// indices together do not reach it.
pub open spec fn absorb(value: u32, indices: Seq<u32>, offset: nat, bits: nat) -> Option<u32>
    decreases indices.len(),
{
    if indices.len() == 0 {
        if offset >= VALUE_BITS {
            Some(value)
        } else {
            None
        }
    } else if offset >= VALUE_BITS {
        None
    } else {
        absorb(value | (indices[0] << (offset as u32)), indices.drop_first(), offset + bits, bits)
    }
}

/// The value that the phrase `text` stands for over `alphabet`, if it stands
/// for one: every word must be in the alphabet, and together the words must
/// cover the bits of a value, no more and no less.
pub open spec fn decoded(text: Seq<char>, alphabet: Seq<Seq<char>>) -> Option<u32> {
    let words = split_words(text);
    if forall|k: int| 0 <= k < words.len() ==> alphabet.contains(#[trigger] words[k]) {
        absorb(
            0,
            words.map_values(|word: Seq<char>| first_index(alphabet, word) as u32),
            0,
            bits_per_word(alphabet.len()),
        )
    } else {
        None
    }
}

/// Whether phrases over `alphabet` can be read back: the words that
/// encoding uses are not empty, hold no white space, and differ from every
/// word before them.
pub open spec fn alphabet_is_sound(alphabet: Seq<Seq<char>>) -> bool {
    let used = two_to(bits_per_word(alphabet.len()));
    &&& 2 <= alphabet.len() <= u32::MAX
    &&& forall|i: int|
        0 <= i < used ==> (#[trigger] alphabet[i]).len() > 0 && forall|k: int|
            0 <= k < alphabet[i].len() ==> !is_whitespace(#[trigger] alphabet[i][k])
    &&& forall|i: int, j: int| 0 <= j < i < used ==> alphabet[j] != alphabet[i]
}

/// A word never stands for more bits than the list has words.
pub proof fn lemma_bits_at_most_count(count: nat)
    ensures
        bits_per_word(count) <= count,
    decreases count,
{
    if count >= 2 {
        lemma_bits_at_most_count(count / 2);
    }
}

/// A list of `count` words has a word for every value of the bits that one
/// word stands for, and not for every value of one bit more.
pub proof fn lemma_bits_bound(count: nat)
    requires
        count >= 1,
    ensures
        two_to(bits_per_word(count)) <= count < 2 * two_to(bits_per_word(count)),
    decreases count,
{
    if count >= 2 {
        lemma_bits_bound(count / 2);
    }
}

proof fn lemma_two_to_grows(low: nat, high: nat)
    requires
        low <= high,
    ensures
        two_to(low) <= two_to(high),
    decreases high,
{
    if low < high {
        lemma_two_to_grows(low, (high - 1) as nat);
    }
}

/// A list of no more than `u32::MAX` words gives each word 31 bits at most.
pub proof fn lemma_bits_small(count: nat)
    requires
        count <= u32::MAX,
    ensures
        bits_per_word(count) <= 31,
{
    if count >= 1 && bits_per_word(count) >= 32 {
        lemma_bits_bound(count);
        lemma_two_to_grows(32, bits_per_word(count));
        assert(two_to(32) == 0x1_0000_0000) by {
            reveal_with_fuel(two_to, 33);
        }
    }
}

proof fn lemma_shift_is_two_to(bits: u32)
    requires
        bits < 32,
    ensures
        (1u32 << bits) == two_to(bits as nat),
    decreases bits,
{
    if bits == 0 {
        assert(1u32 << 0u32 == 1) by (bit_vector);
    } else {
        let less = (bits - 1) as u32;
        lemma_shift_is_two_to(less);
        assert((1u32 << bits) == 2 * (1u32 << less)) by (bit_vector)
            requires
                0 < bits < 32,
                less == bits - 1,
        ;
    }
}

/// A group of bits is a position below two to the number of its bits.
proof fn lemma_group_bound(value: u32, offset: nat, bits: nat)
    requires
        offset < 32,
        1 <= bits <= 31,
    ensures
        group(value, offset, bits) < two_to(bits),
{
    let o = offset as u32;
    let b = bits as u32;
    lemma_shift_is_two_to(b);
    assert(((value >> o) & (((1u32 << b) - 1) as u32)) < (1u32 << b)) by (bit_vector)
        requires
            1 <= b <= 31,
    ;
}

/// The number of bits that one word of a list of `count` words stands for.
pub fn bits_for(count: usize) -> (bits: usize)
    ensures
        bits == bits_per_word(count as nat),
{
    let mut bits: usize = 0;
    let mut rest = count;
    proof {
        lemma_bits_at_most_count(count as nat);
    }
    while rest >= 2
        invariant
            bits + bits_per_word(rest as nat) == bits_per_word(count as nat),
            bits_per_word(count as nat) <= count,
        decreases rest,
    {
        rest = rest / 2;
        bits += 1;
    }
    bits
}

/// Whether `c` is white space as Unicode defines it.
pub fn char_is_whitespace(c: char) -> (white: bool)
    ensures
        white == is_whitespace(c),
{
    let code = c as u32;
    (0x09 <= code && code <= 0x0d) || code == 0x20 || code == 0x85 || code == 0xa0 || code
        == 0x1680 || (0x2000 <= code && code <= 0x200a) || code == 0x2028 || code == 0x2029 || code
        == 0x202f || code == 0x205f || code == 0x3000
}

/// The phrase that stands for `value` over `words`.
pub fn encode(value: u32, words: &[&str]) -> (text: String)
    requires
        2 <= words@.len() <= u32::MAX,
    ensures
        text@ == encoded(value, alphabet_of(words@)),
{
    let bits = bits_for(words.len());
    let ghost alphabet = alphabet_of(words@);
    proof {
        lemma_bits_small(words@.len());
        lemma_bits_bound(words@.len());
        lemma_shift_is_two_to(bits as u32);
        reveal_strlit(" ");
        assert(" "@ =~= seq![' ']);
    }
    let mask: u32 = (1u32 << (bits as u32)) - 1;
    let mut text = String::new();
    let mut offset: usize = 0;
    let ghost mut done: Seq<u32> = Seq::empty();
    while offset < VALUE_BITS
        invariant
            1 <= bits <= 31,
            bits == bits_per_word(words@.len()),
            alphabet == alphabet_of(words@),
            two_to(bits as nat) <= words@.len(),
            mask == ((1u32 << (bits as u32)) - 1) as u32,
            " "@ == seq![' '],
            offset <= 62,
            groups(value, 0, bits as nat) == done + groups(value, offset as nat, bits as nat),
            text@ == phrase(done.map_values(|index: u32| alphabet[index as int])),
            (done.len() == 0) == (offset == 0),
        decreases VALUE_BITS + 31 - offset,
    {
        let index = (value >> (offset as u32)) & mask;
        proof {
            lemma_group_bound(value, offset as nat, bits as nat);
            assert(index == group(value, offset as nat, bits as nat));
        }
        let ghost before = done.map_values(|index: u32| alphabet[index as int]);
        if offset > 0 {
            text.append(" ");
        }
        text.append(words[index as usize]);
        proof {
            let rest = groups(value, (offset + bits) as nat, bits as nat);
            assert(done + (seq![index] + rest) =~= done.push(index) + rest);
            let after = done.push(index).map_values(|index: u32| alphabet[index as int]);
            assert(after =~= before.push(alphabet[index as int]));
            assert(after.drop_last() =~= before);
            done = done.push(index);
        }
        offset += bits;
    }
    proof {
        assert(done + Seq::<u32>::empty() =~= done);
    }
    text
}

/// Where each of the words of `text` begins and ends, by the position of
/// its characters.
pub fn word_ranges(text: &str) -> (ranges: Vec<(usize, usize)>)
    ensures
        ranges@.len() == split_words(text@).len(),
        forall|k: int|
            0 <= k < ranges@.len() ==> {
                &&& (#[trigger] ranges@[k]).0 <= ranges@[k].1 <= text@.len()
                &&& split_words(text@)[k] == text@.subrange(
                    ranges@[k].0 as int,
                    ranges@[k].1 as int,
                )
            },
{
    let length = text.unicode_len();
    let mut ranges: Vec<(usize, usize)> = Vec::new();
    let mut start: usize = 0;
    let mut position: usize = 0;
    proof {
        assert(text@.take(0) =~= Seq::<char>::empty());
    }
    for c in letters: text.chars()
        invariant
            letters.seq() == text@,
            length == text@.len(),
            position == letters.index(),
            start <= position <= text@.len(),
            ranges@.len() == scan(text@.take(position as int)).0.len(),
            forall|k: int|
                0 <= k < ranges@.len() ==> {
                    &&& (#[trigger] ranges@[k]).0 <= ranges@[k].1 <= position
                    &&& scan(text@.take(position as int)).0[k] == text@.subrange(
                        ranges@[k].0 as int,
                        ranges@[k].1 as int,
                    )
                },
            scan(text@.take(position as int)).1 == text@.subrange(start as int, position as int),
    {
        proof {
            let taken = text@.take(position + 1);
            assert(taken.drop_last() =~= text@.take(position as int));
            assert(taken.last() == c);
            assert(text@.subrange(start as int, position + 1) =~= text@.subrange(
                start as int,
                position as int,
            ).push(c));
            assert(text@.subrange(position + 1, position + 1) =~= Seq::<char>::empty());
        }
        if char_is_whitespace(c) {
            if start < position {
                ranges.push((start, position));
            }
            start = position + 1;
        }
        position += 1;
    }
    proof {
        assert(text@.take(position as int) =~= text@);
    }
    if start < position {
        ranges.push((start, position));
    }
    ranges
}

/// Number of words that are looked through at a time.
pub const LOOKUP_STRIDE: usize = 256;

/// The first position of `word` in `words`, if it is there.
///
/// The words are looked through a stride at a time. Of each stride the
/// words as long as `word` are noted first, by their lengths alone, and only
/// those are then compared: two texts of the same characters have the same
/// number of bytes.
pub fn find_word(words: &[&str], word: &str) -> (found: Option<usize>)
    ensures
        match found {
            Some(index) => is_first_index(alphabet_of(words@), word@, index as int),
            None => !alphabet_of(words@).contains(word@),
        },
{
    let ghost alphabet = alphabet_of(words@);
    let target = word.as_bytes();
    let length = target.len();
    let count = words.len();
    let first: u8 = if length > 0 {
        target[0]
    } else {
        0
    };
    let last: u8 = if length > 0 {
        target[length - 1]
    } else {
        0
    };
    let mut noted: [usize; LOOKUP_STRIDE] = [0; LOOKUP_STRIDE];
    let mut start: usize = 0;
    while start < count
        invariant
            start <= count,
            count == words@.len(),
            alphabet == alphabet_of(words@),
            target@ == word.spec_bytes(),
            length == target@.len(),
            length > 0 ==> first == target@[0] && last == target@[length - 1],
            noted@.len() == LOOKUP_STRIDE,
            forall|earlier: int| 0 <= earlier < start ==> (#[trigger] alphabet[earlier]) != word@,
        decreases count - start,
    {
        let end = if count - start < LOOKUP_STRIDE {
            count
        } else {
            start + LOOKUP_STRIDE
        };
        let mut n: usize = 0;
        let mut index = start;
        while index < end
            invariant
                start <= index <= end <= count,
                end - start <= LOOKUP_STRIDE,
                count == words@.len(),
                alphabet == alphabet_of(words@),
                target@ == word.spec_bytes(),
                length == target@.len(),
                noted@.len() == LOOKUP_STRIDE,
                n <= index - start,
                forall|k: int| 0 <= k < n ==> start <= #[trigger] noted@[k] < index,
                forall|k: int, m: int| 0 <= k < m < n ==> noted@[k] < noted@[m],
                forall|j: int|
                    start <= j < index && (#[trigger] alphabet[j]) == word@ ==> exists|k: int|
                        0 <= k < n && noted@[k] == j,
            decreases end - index,
        {
            let ghost before = noted@;
            noted[n] = index;
            proof {
                assert forall|j: int|
                    start <= j < index && (#[trigger] alphabet[j]) == word@ implies exists|k: int|
                    0 <= k < n && noted@[k] == j by {
                    let k = choose|k: int| 0 <= k < n && before[k] == j;
                    assert(noted@[k] == j);
                }
            }
            if words[index].as_bytes().len() == length {
                proof {
                    assert(noted@[n as int] == index);
                }
                n += 1;
            } else {
                proof {
                    assert(alphabet[index as int] != word@);
                }
            }
            index += 1;
        }
        let mut k: usize = 0;
        while k < n
            invariant
                k <= n <= LOOKUP_STRIDE,
                start < end <= count,
                count == words@.len(),
                alphabet == alphabet_of(words@),
                noted@.len() == LOOKUP_STRIDE,
                forall|k: int| 0 <= k < n ==> start <= #[trigger] noted@[k] < end,
                forall|k: int, m: int| 0 <= k < m < n ==> noted@[k] < noted@[m],
                forall|j: int|
                    start <= j < end && (#[trigger] alphabet[j]) == word@ ==> exists|k: int|
                        0 <= k < n && noted@[k] == j,
                forall|earlier: int|
                    0 <= earlier < start ==> (#[trigger] alphabet[earlier]) != word@,
                forall|m: int| 0 <= m < k ==> alphabet[#[trigger] noted@[m] as int] != word@,
                target@ == word.spec_bytes(),
                length == target@.len(),
                length > 0 ==> first == target@[0] && last == target@[length - 1],
            decreases n - k,
        {
            let position = noted[k];
            let bytes = words[position].as_bytes();
            // The bytes at both ends tell most words apart.
            if bytes.len() == length && (length == 0 || (bytes[0] == first && bytes[length - 1]
                == last)) && text_eq(words[position], word) {
                proof {
                    assert forall|earlier: int| 0 <= earlier < position implies alphabet[earlier]
                        != word@ by {
                        if earlier >= start && alphabet[earlier] == word@ {
                            let m = choose|m: int| 0 <= m < n && noted@[m] == earlier;
                            assert(m < k);
                            assert(alphabet[noted@[m] as int] != word@);
                        }
                    }
                }
                return Some(position);
            }
            k += 1;
        }
        proof {
            assert forall|earlier: int| 0 <= earlier < end implies (#[trigger] alphabet[earlier])
                != word@ by {
                if earlier >= start && alphabet[earlier] == word@ {
                    let m = choose|m: int| 0 <= m < n && noted@[m] == earlier;
                    assert(alphabet[noted@[m] as int] != word@);
                }
            }
        }
        start = end;
    }
    None
}

/// The value that the phrase `text` stands for over `words`, if it stands
/// for one.
pub fn decode(text: &str, words: &[&str]) -> (value: Option<u32>)
    requires
        words@.len() <= u32::MAX,
    ensures
        value == decoded(text@, alphabet_of(words@)),
{
    let bits = bits_for(words.len());
    let ranges = word_ranges(text);
    let ghost alphabet = alphabet_of(words@);
    let ghost parts = split_words(text@);
    let ghost indices = parts.map_values(|word: Seq<char>| first_index(alphabet, word) as u32);
    proof {
        lemma_bits_small(words@.len());
        assert(indices.skip(0) =~= indices);
    }
    if bits == 0 {
        proof {
            lemma_absorb_needs_bits(0, indices, 0);
        }
        return None;
    }
    let mut value: u32 = 0;
    let mut offset: usize = 0;
    let mut position: usize = 0;
    while position < ranges.len()
        invariant
            position <= ranges@.len(),
            ranges@.len() == parts.len(),
            parts == split_words(text@),
            alphabet == alphabet_of(words@),
            indices == parts.map_values(|word: Seq<char>| first_index(alphabet, word) as u32),
            words@.len() <= u32::MAX,
            1 <= bits <= 31,
            bits == bits_per_word(words@.len()),
            offset <= 62,
            forall|k: int|
                0 <= k < ranges@.len() ==> {
                    &&& (#[trigger] ranges@[k]).0 <= ranges@[k].1 <= text@.len()
                    &&& parts[k] == text@.subrange(ranges@[k].0 as int, ranges@[k].1 as int)
                },
            forall|k: int| 0 <= k < position ==> alphabet.contains(#[trigger] parts[k]),
            absorb(value, indices.skip(position as int), offset as nat, bits as nat) == absorb(
                0,
                indices,
                0,
                bits as nat,
            ),
        decreases ranges@.len() - position,
    {
        if offset >= VALUE_BITS {
            return None;
        }
        let (from, to) = ranges[position];
        let word = text.substring_char(from, to);
        let index = match find_word(words, word) {
            Some(index) => index,
            None => {
                return None;
            },
        };
        proof {
            assert(alphabet.contains(parts[position as int]));
            assert(first_index(alphabet, word@) == index) by {
                let chosen = first_index(alphabet, word@);
                assert(is_first_index(alphabet, word@, index as int));
                assert(is_first_index(alphabet, word@, chosen));
            }
            let rest = indices.skip(position as int);
            assert(rest[0] == index as u32);
            assert(rest.drop_first() =~= indices.skip(position + 1));
        }
        value = value | ((index as u32) << (offset as u32));
        offset += bits;
        position += 1;
    }
    proof {
        assert(indices.skip(position as int) =~= Seq::<u32>::empty());
    }
    if offset >= VALUE_BITS {
        Some(value)
    } else {
        None
    }
}

/// Words that stand for no bits never add up to a value.
proof fn lemma_absorb_needs_bits(value: u32, indices: Seq<u32>, offset: nat)
    requires
        offset < VALUE_BITS,
    ensures
        absorb(value, indices, offset, 0) is None,
    decreases indices.len(),
{
    if indices.len() > 0 {
        lemma_absorb_needs_bits(
            value | (indices[0] << (offset as u32)),
            indices.drop_first(),
            offset,
        );
    }
}


/// Whether a word can stand in a phrase: it is not empty and holds no white
/// space.
pub open spec fn is_clean_word(word: Seq<char>) -> bool {
    word.len() > 0 && forall|k: int| 0 <= k < word.len() ==> !is_whitespace(#[trigger] word[k])
}

/// Reading on through letters that are no white space adds them to the word
/// that has not ended.
proof fn lemma_scan_letters(text: Seq<char>, letters: Seq<char>)
    requires
        forall|k: int| 0 <= k < letters.len() ==> !is_whitespace(#[trigger] letters[k]),
    ensures
        scan(text + letters) == (scan(text).0, scan(text).1 + letters),
    decreases letters.len(),
{
    if letters.len() == 0 {
        assert(text + letters =~= text);
        assert(scan(text).1 + letters =~= scan(text).1);
    } else {
        let shorter = letters.drop_last();
        lemma_scan_letters(text, shorter);
        assert((text + letters).drop_last() =~= text + shorter);
        assert((text + letters).last() == letters.last());
        assert((scan(text).1 + shorter).push(letters.last()) =~= scan(text).1 + letters);
    }
}

/// Reading a phrase of clean words leaves the last word open and all the
/// words before it done.
proof fn lemma_scan_phrase(words: Seq<Seq<char>>)
    requires
        words.len() > 0,
        forall|k: int| 0 <= k < words.len() ==> is_clean_word(#[trigger] words[k]),
    ensures
        scan(phrase(words)) == (words.drop_last(), words.last()),
    decreases words.len(),
{
    let empty = Seq::<char>::empty();
    if words.len() == 1 {
        lemma_scan_letters(empty, words[0]);
        assert(empty + words[0] =~= words[0]);
        assert(words.drop_last() =~= Seq::<Seq<char>>::empty());
    } else {
        let before = words.drop_last();
        assert forall|k: int| 0 <= k < before.len() implies is_clean_word(#[trigger] before[k]) by {
            assert(before[k] == words[k]);
        }
        lemma_scan_phrase(before);
        let spaced = phrase(before) + seq![' '];
        assert(spaced.drop_last() =~= phrase(before));
        assert(spaced.last() == ' ');
        assert(is_whitespace(' '));
        assert(is_clean_word(before.last()));
        assert(before.drop_last().push(before.last()) =~= before);
        assert(scan(spaced) == (before, empty));
        assert(is_clean_word(words.last()));
        lemma_scan_letters(spaced, words.last());
        assert(empty + words.last() =~= words.last());
    }
}

/// A phrase of clean words splits into just those words.
pub proof fn lemma_split_phrase(words: Seq<Seq<char>>)
    requires
        forall|k: int| 0 <= k < words.len() ==> is_clean_word(#[trigger] words[k]),
    ensures
        split_words(phrase(words)) == words,
{
    if words.len() == 0 {
        assert(split_words(phrase(words)) =~= words);
    } else {
        lemma_scan_phrase(words);
        assert(is_clean_word(words.last()));
        assert(words.drop_last().push(words.last()) =~= words);
    }
}

/// The bits of a value below `offset` bits above the lowest.
pub open spec fn low_bits(value: u32, offset: nat) -> u32 {
    if offset >= VALUE_BITS {
        value
    } else {
        value & (((1u32 << (offset as u32)) - 1) as u32)
    }
}

/// Taking up the groups of a value in turn, on top of the bits below them,
/// gives the value back.
proof fn lemma_absorb_groups(value: u32, offset: nat, bits: nat)
    requires
        1 <= bits <= 31,
    ensures
        absorb(low_bits(value, offset), groups(value, offset, bits), offset, bits) == Some(value),
    decreases bits_left(offset),
{
    if offset < VALUE_BITS {
        let o = offset as u32;
        let b = bits as u32;
        let low = low_bits(value, offset);
        let next = group(value, offset, bits);
        let rest = groups(value, offset + bits, bits);
        let all = groups(value, offset, bits);
        assert(all == seq![next] + rest);
        assert(all[0] == next);
        assert(all.drop_first() =~= rest);
        assert((low | (next << o)) == low_bits(value, offset + bits)) by {
            if offset + bits >= VALUE_BITS {
                assert(((value & (((1u32 << o) - 1) as u32)) | (((value >> o) & (((1u32 << b)
                    - 1) as u32)) << o)) == value) by (bit_vector)
                    requires
                        o < 32,
                        1 <= b <= 31,
                        o + b >= 32,
                ;
            } else {
                let ob = (offset + bits) as u32;
                assert(((value & (((1u32 << o) - 1) as u32)) | (((value >> o) & (((1u32 << b)
                    - 1) as u32)) << o)) == value & (((1u32 << ob) - 1) as u32)) by (bit_vector)
                    requires
                        o < 32,
                        1 <= b <= 31,
                        ob == o + b,
                        ob < 32,
                ;
            }
        }
        lemma_absorb_groups(value, offset + bits, bits);
    }
}

/// Every group of a value is a position below two to the number of its
/// bits.
proof fn lemma_groups_bound(value: u32, offset: nat, bits: nat)
    requires
        1 <= bits <= 31,
    ensures
        forall|k: int|
            0 <= k < groups(value, offset, bits).len() ==> #[trigger] groups(
                value,
                offset,
                bits,
            )[k] < two_to(bits),
    decreases bits_left(offset),
{
    if offset < VALUE_BITS {
        lemma_group_bound(value, offset, bits);
        lemma_groups_bound(value, offset + bits, bits);
        let rest = groups(value, offset + bits, bits);
        let all = groups(value, offset, bits);
        assert forall|k: int| 0 <= k < all.len() implies #[trigger] all[k] < two_to(bits) by {
            if k > 0 {
                assert(all[k] == rest[k - 1]);
            }
        }
    }
}

/// A phrase can be read back: over a sound alphabet, the phrase that stands
/// for a value stands for no other value.
pub proof fn lemma_seed_round_trip(value: u32, alphabet: Seq<Seq<char>>)
    requires
        alphabet_is_sound(alphabet),
    ensures
        decoded(encoded(value, alphabet), alphabet) == Some(value),
{
    let bits = bits_per_word(alphabet.len());
    lemma_bits_small(alphabet.len());
    lemma_bits_bound(alphabet.len());
    let indices = groups(value, 0, bits);
    let words = indices.map_values(|index: u32| alphabet[index as int]);
    lemma_groups_bound(value, 0, bits);
    assert forall|k: int| 0 <= k < words.len() implies is_clean_word(#[trigger] words[k]) by {
        assert(indices[k] < two_to(bits));
        assert(alphabet[indices[k] as int].len() > 0);
    }
    lemma_split_phrase(words);
    let found = words.map_values(|word: Seq<char>| first_index(alphabet, word) as u32);
    assert forall|k: int| 0 <= k < words.len() implies alphabet.contains(#[trigger] words[k])
        && found[k] == indices[k] by {
        let index = indices[k] as int;
        assert(index < two_to(bits));
        assert(is_first_index(alphabet, words[k], index));
        let chosen = first_index(alphabet, words[k]);
        assert(is_first_index(alphabet, words[k], chosen));
        assert(chosen == index);
    }
    assert(found =~= indices);
    assert(1u32 << 0u32 == 1) by (bit_vector);
    assert(value & 0 == 0) by (bit_vector);
    lemma_absorb_groups(value, 0, bits);
}


/// Number of words in the list that seeds are written with.
pub const WORDLIST_LEN: usize = 16383;

/// The word at position `index` of the list that seeds are written with.
pub uninterp spec fn wordlist_entry(index: int) -> Seq<char>;

/// The list that seeds are written with.
pub open spec fn wordlist() -> Seq<Seq<char>> {
    Seq::new(WORDLIST_LEN as nat, |index: int| wordlist_entry(index))
}

/// The list that seeds are written with.
///
/// Trusted: hands out `memorable_wordlist::WORDS`, a constant list of 16383
/// words. Its words are known here only by the name of each.
#[verifier::external_body]
pub(crate) fn wordlist_words() -> (words: &'static [&'static str])
    ensures
        words@.len() == WORDLIST_LEN,
        forall|index: int|
            0 <= index < words@.len() ==> (#[trigger] words@[index])@ == wordlist_entry(index),
{
    memorable_wordlist::WORDS
}

/// Whether `word` is not empty and holds no white space.
pub fn word_is_clean(word: &str) -> (clean: bool)
    ensures
        clean == is_clean_word(word@),
{
    let mut empty = true;
    for c in letters: word.chars()
        invariant
            letters.seq() == word@,
            empty == (letters.index() == 0),
            forall|k: int| 0 <= k < letters.index() ==> !is_whitespace(#[trigger] word@[k]),
    {
        if char_is_whitespace(c) {
            return false;
        }
        empty = false;
    }
    !empty
}

/// Whether phrases over `words` can be read back.
pub fn check_alphabet(words: &[&str]) -> (sound: bool)
    ensures
        sound == alphabet_is_sound(alphabet_of(words@)),
{
    let ghost alphabet = alphabet_of(words@);
    if words.len() < 2 || words.len() > u32::MAX as usize {
        return false;
    }
    let bits = bits_for(words.len());
    proof {
        lemma_bits_small(words@.len());
        lemma_bits_bound(words@.len());
        lemma_shift_is_two_to(bits as u32);
    }
    let used: usize = (1u32 << (bits as u32)) as usize;
    let mut index: usize = 0;
    while index < used
        invariant
            index <= used <= words@.len(),
            used == two_to(bits_per_word(words@.len())),
            alphabet == alphabet_of(words@),
            2 <= words@.len() <= u32::MAX,
            forall|i: int| 0 <= i < index ==> is_clean_word(#[trigger] alphabet[i]),
            forall|i: int, j: int| 0 <= j < i < index ==> alphabet[j] != alphabet[i],
        decreases used - index,
    {
        if !word_is_clean(words[index]) {
            proof {
                assert(!is_clean_word(alphabet[index as int]));
            }
            return false;
        }
        let mut earlier: usize = 0;
        while earlier < index
            invariant
                earlier <= index < used <= words@.len(),
                used == two_to(bits_per_word(words@.len())),
                alphabet == alphabet_of(words@),
                forall|j: int| 0 <= j < earlier ==> alphabet[j] != alphabet[index as int],
            decreases index - earlier,
        {
            if text_eq(words[earlier], words[index]) {
                proof {
                    assert(alphabet[earlier as int] == alphabet[index as int]);
                }
                return false;
            }
            earlier += 1;
        }
        index += 1;
    }
    proof {
        assert forall|i: int| 0 <= i < used implies (#[trigger] alphabet[i]).len() > 0
            && forall|k: int|
            0 <= k < alphabet[i].len() ==> !is_whitespace(#[trigger] alphabet[i][k]) by {
            assert(is_clean_word(alphabet[i]));
        }
    }
    true
}

impl Seed {
    /// The phrase that stands for this seed.
    pub fn to_string(&self) -> (text: String)
        ensures
            text@ == encoded(self.value, wordlist()),
    {
        let words = wordlist_words();
        proof {
            assert(alphabet_of(words@) =~= wordlist());
        }
        encode(self.value, words)
    }

    /// The seed that the phrase `text` stands for, if it stands for one.
    pub fn from_phrase(text: &str) -> (seed: Option<Seed>)
        ensures
            seed == match decoded(text@, wordlist()) {
                Some(value) => Some(Seed { value }),
                None => None,
            },
    {
        let words = wordlist_words();
        proof {
            assert(alphabet_of(words@) =~= wordlist());
        }
        match decode(text, words) {
            Some(value) => Some(Seed { value }),
            None => None,
        }
    }

    /// The seed that a client asked for, or one drawn at random where the
    /// client asked for none or wrote none that can be read.
    pub fn from_phrase_or_random(text: Option<&str>) -> (seed: Seed)
        ensures
            text matches Some(phrase) ==> (decoded(phrase@, wordlist()) matches Some(value)
                ==> seed.value == value),
    {
        let read = match text {
            Some(phrase) => Seed::from_phrase(phrase),
            None => None,
        };
        match read {
            Some(seed) => seed,
            None => Seed::new_random(),
        }
    }

    /// Whether every seed can be read back from its phrase.
    pub fn wordlist_is_sound() -> (sound: bool)
        ensures
            sound == alphabet_is_sound(wordlist()),
    {
        let words = wordlist_words();
        proof {
            assert(alphabet_of(words@) =~= wordlist());
        }
        check_alphabet(words)
    }
}

impl Seed {
    /// The phrase that stands for this seed, given out only where the list
    /// that seeds are written with is found sound. A phrase that is given out
    /// reads back as this seed.
    pub fn checked_phrase(&self) -> (text: Option<String>)
        ensures
            text is Some <==> alphabet_is_sound(wordlist()),
            text matches Some(phrase) ==> phrase@ == encoded(self.value, wordlist()) && decoded(
                phrase@,
                wordlist(),
            ) == Some(self.value),
    {
        if Seed::wordlist_is_sound() {
            proof {
                lemma_phrase_reads_back(*self);
            }
            Some(self.to_string())
        } else {
            None
        }
    }
}

/// Every seed can be read back from its phrase, where the list that seeds
/// are written with is sound.
pub proof fn lemma_phrase_reads_back(seed: Seed)
    requires
        alphabet_is_sound(wordlist()),
    ensures
        decoded(encoded(seed.value, wordlist()), wordlist()) == Some(seed.value),
{
    lemma_seed_round_trip(seed.value, wordlist());
}

impl std::str::FromStr for Seed {
    type Err = ();

    fn from_str(text: &str) -> (seed: Result<Self, ()>)
        ensures
            seed == match decoded(text@, wordlist()) {
                Some(value) => Ok::<Seed, ()>(Seed { value }),
                None => Err::<Seed, ()>(()),
            },
    {
        match Seed::from_phrase(text) {
            Some(seed) => Ok(seed),
            None => Err(()),
        }
    }
}

} // verus!
