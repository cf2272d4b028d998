//! The 256-bit words of the EVM, and the byte strings that are read as words.

use vstd::prelude::*;

use crate::power::{lemma_power_monotone, lemma_power_positive, power};

verus! {

/// The number that `bytes` spells, most significant byte first.
pub open spec fn be_value(bytes: Seq<u8>) -> nat
    decreases bytes.len(),
{
    if bytes.len() == 0 {
        0
    } else {
        be_value(bytes.drop_last()) * 256 + bytes.last() as nat
    }
}

/// The value of a string is that of its head, moved up, plus that of its tail.
proof fn lemma_be_value_split(head: Seq<u8>, tail: Seq<u8>)
    ensures
        be_value(head + tail) == be_value(head) * power(256, tail.len()) + be_value(tail),
    decreases tail.len(),
{
    if tail.len() == 0 {
        assert(head + tail =~= head);
        assert(power(256, 0) == 1);
        assert(be_value(tail) == 0);
    } else {
        let rest = tail.drop_last();
        lemma_be_value_split(head, rest);
        assert((head + tail).drop_last() =~= head + rest);
        assert((head + tail).last() == tail.last());
        let upper = be_value(head);
        let weight = power(256, rest.len());
        assert(power(256, tail.len()) == 256 * weight);
        assert((upper * weight) * 256 == upper * (256 * weight)) by (nonlinear_arith);
    }
}

/// A byte spells itself, and of two strings in a row the first counts 256 times as much for
/// each byte of the second.
pub proof fn law_be_value(head: Seq<u8>, tail: Seq<u8>, byte: u8)
    ensures
        be_value(seq![byte]) == byte,
        be_value(head + tail) == be_value(head) * power(256, tail.len()) + be_value(tail),
{
    lemma_be_value_split(head, tail);
    reveal_with_fuel(be_value, 2);
    assert(seq![byte].drop_last().len() == 0);
}

/// A string of zeros spells zero.
proof fn lemma_be_value_zeros(bytes: Seq<u8>)
    requires
        forall|i: int| 0 <= i < bytes.len() ==> bytes[i] == 0,
    ensures
        be_value(bytes) == 0,
    decreases bytes.len(),
{
    if bytes.len() > 0 {
        lemma_be_value_zeros(bytes.drop_last());
    }
}

/// A nonzero byte makes the value at least as large as its place.
proof fn lemma_be_value_nonzero(bytes: Seq<u8>, place: int)
    requires
        0 <= place < bytes.len(),
        bytes[place] != 0,
    ensures
        be_value(bytes) >= power(256, (bytes.len() - 1 - place) as nat),
    decreases bytes.len(),
{
    if place == bytes.len() - 1 {
        assert(power(256, 0) == 1);
    } else {
        let rest = bytes.drop_last();
        lemma_be_value_nonzero(rest, place);
        assert(power(256, (bytes.len() - 1 - place) as nat) == 256 * power(
            256,
            (rest.len() - 1 - place) as nat,
        ));
    }
}

/// Powers of 256 that fit a `u64` and the first that does not.
proof fn lemma_eight_bytes()
    ensures
        power(256, 8) == 0x1_0000_0000_0000_0000,
{
    reveal_with_fuel(power, 9);
}

/// A word of 256 bits, most significant byte first.
#[derive(Debug, Clone, Copy)]
pub struct Word {
    pub bytes: [u8; 32],
}

impl View for Word {
    type V = nat;

    open spec fn view(&self) -> nat {
        be_value(self.bytes@)
    }
}

impl Word {
    pub fn from_u64(value: u64) -> (word: Self)
        ensures
            word@ == value,
    {
        let mut bytes: [u8; 32] = [0; 32];
        let mut rest: u64 = value;
        let mut place: usize = 32;
        proof {
            assert(be_value(bytes@.skip(32)) == 0);
            assert(power(256, 0) == 1);
            assert(rest * 1 == rest) by (nonlinear_arith);
        }
        while place > 24
            invariant
                24 <= place <= 32,
                bytes@.len() == 32,
                forall|i: int| 0 <= i < place ==> bytes@[i] == 0,
                value == rest * power(256, (32 - place) as nat) + be_value(bytes@.skip(place as int)),
            decreases place,
        {
            let ghost tail = bytes@.skip(place as int);
            let ghost weight = power(256, (32 - place) as nat);
            let ghost digit = rest % 256;
            let ghost upper = rest / 256;
            place = place - 1;
            bytes[place] = (rest % 256) as u8;
            proof {
                assert(bytes@.skip(place as int) =~= seq![digit as u8] + tail);
                lemma_be_value_split(seq![digit as u8], tail);
                assert(seq![digit as u8].drop_last().len() == 0);
                reveal_with_fuel(be_value, 2);
                assert(be_value(seq![digit as u8]) == digit);
                assert(power(256, (32 - place) as nat) == 256 * weight);
                assert(rest * weight == upper * (256 * weight) + digit * weight) by (nonlinear_arith)
                    requires
                        rest == 256 * upper + digit,
                ;
            }
            rest = rest / 256;
        }
        proof {
            lemma_eight_bytes();
            assert(rest == 0) by (nonlinear_arith)
                requires
                    rest * 0x1_0000_0000_0000_0000 <= value,
                    value <= u64::MAX,
            ;
            assert(bytes@ =~= bytes@.take(24) + bytes@.skip(24));
            lemma_be_value_split(bytes@.take(24), bytes@.skip(24));
            lemma_be_value_zeros(bytes@.take(24));
        }
        Word { bytes }
    }

    pub fn is_zero(&self) -> (answer: bool)
        ensures
            answer == (self@ == 0),
    {
        let mut i: usize = 0;
        while i < 32
            invariant
                i <= 32,
                forall|j: int| 0 <= j < i ==> self.bytes@[j] == 0,
            decreases 32 - i,
        {
            if self.bytes[i] != 0 {
                proof {
                    lemma_be_value_nonzero(self.bytes@, i as int);
                    lemma_power_positive(256, (31 - i) as nat);
                }
                return false;
            }
            i = i + 1;
        }
        proof {
            lemma_be_value_zeros(self.bytes@);
        }
        true
    }

    /// The word as a `u64`, where one can hold it.
    pub fn to_u64(&self) -> (small: Option<u64>)
        ensures
            self@ <= u64::MAX ==> small == Some(self@ as u64),
            self@ > u64::MAX ==> small is None,
    {
        proof {
            lemma_eight_bytes();
        }
        let mut i: usize = 0;
        while i < 24
            invariant
                i <= 24,
                power(256, 8) == 0x1_0000_0000_0000_0000,
                forall|j: int| 0 <= j < i ==> self.bytes@[j] == 0,
            decreases 24 - i,
        {
            if self.bytes[i] != 0 {
                proof {
                    lemma_be_value_nonzero(self.bytes@, i as int);
                    lemma_power_monotone(256, 8, (31 - i) as nat);
                }
                return None;
            }
            i = i + 1;
        }
        let mut value: u64 = 0;
        proof {
            lemma_be_value_zeros(self.bytes@.take(24));
            assert(power(256, 0) == 1);
        }
        while i < 32
            invariant
                24 <= i <= 32,
                power(256, 8) == 0x1_0000_0000_0000_0000,
                value == be_value(self.bytes@.take(i as int)),
                value < power(256, (i - 24) as nat),
            decreases 32 - i,
        {
            let ghost next = self.bytes@.take(i + 1);
            proof {
                assert(next.drop_last() =~= self.bytes@.take(i as int));
                assert(next.last() == self.bytes@[i as int]);
                assert(power(256, (i + 1 - 24) as nat) == 256 * power(256, (i - 24) as nat));
                lemma_power_monotone(256, (i + 1 - 24) as nat, 8);
            }
            value = value * 256 + self.bytes[i] as u64;
            i = i + 1;
        }
        assert(self.bytes@.take(32) =~= self.bytes@);
        Some(value)
    }

    /// The word as a `usize`, where one can hold it.
    pub fn to_usize(&self) -> (small: Option<usize>)
        ensures
            self@ <= usize::MAX ==> small == Some(self@ as usize),
            self@ > usize::MAX ==> small is None,
    {
        match self.to_u64() {
            Some(value) => if value <= usize::MAX as u64 {
                Some(value as usize)
            } else {
                None
            },
            None => None,
        }
    }
}

/// An account address.
#[derive(Debug, Clone, Copy)]
pub struct Address {
    pub bytes: [u8; 20],
}

impl Address {
    /// The address as a word, with zeros in front.
    pub fn to_word(&self) -> (word: Word)
        ensures
            word@ == be_value(self.bytes@),
    {
        let mut bytes: [u8; 32] = [0; 32];
        let mut i: usize = 0;
        while i < 20
            invariant
                i <= 20,
                bytes@.len() == 32,
                forall|j: int| 0 <= j < 12 ==> bytes@[j] == 0,
                forall|j: int| 0 <= j < i ==> #[trigger] bytes@[12 + j] == self.bytes@[j],
            decreases 20 - i,
        {
            bytes[12 + i] = self.bytes[i];
            i = i + 1;
        }
        proof {
            let tail = bytes@.skip(12);
            assert forall|j: int| 0 <= j < 20 implies tail[j] == self.bytes@[j] by {
                assert(tail[j] == bytes@[12 + j]);
            }
            assert(tail =~= self.bytes@);
            assert(bytes@ =~= bytes@.take(12) + tail);
            lemma_be_value_split(bytes@.take(12), tail);
            lemma_be_value_zeros(bytes@.take(12));
            assert(0 * power(256, 20) == 0) by (nonlinear_arith);
        }
        Word { bytes }
    }
}

/// A hash.
#[derive(Debug, Clone, Copy)]
pub struct H256 {
    pub bytes: [u8; 32],
}

impl H256 {
    /// The hash as a word.
    pub fn to_word(&self) -> (word: Word)
        ensures
            word@ == be_value(self.bytes@),
    {
        Word { bytes: self.bytes }
    }

    pub fn equals(&self, other: &H256) -> (answer: bool)
        ensures
            answer == (self.bytes@ == other.bytes@),
    {
        let mut i: usize = 0;
        while i < 32
            invariant
                i <= 32,
                forall|j: int| 0 <= j < i ==> self.bytes@[j] == other.bytes@[j],
            decreases 32 - i,
        {
            if self.bytes[i] != other.bytes[i] {
                assert(self.bytes@[i as int] != other.bytes@[i as int]);
                return false;
            }
            i = i + 1;
        }
        assert(self.bytes@ =~= other.bytes@);
        true
    }
}

} // verus!
