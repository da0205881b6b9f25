use std::collections::HashMap;
use vstd::prelude::*;

verus! {

/// What non-confidential memory holds, word by word, at the time the monitor
/// looks at it. A word that was never written is zero.
pub struct NonConfidentialMemory {
    words: HashMap<u64, u64>,
}

impl NonConfidentialMemory {
    /// The 64-bit word at an address.
    pub closed spec fn word(&self, address: int) -> u64 {
        if 0 <= address <= u64::MAX && self.words@.contains_key(address as u64) {
            self.words@[address as u64]
        } else {
            0
        }
    }

    /// Memory that holds zero everywhere.
    pub fn new() -> (memory: Self)
        ensures
            forall|address: int| memory.word(address) == 0,
    {
        Self { words: HashMap::new() }
    }

    pub fn read_word(&self, address: u64) -> (word: u64)
        ensures
            word == self.word(address as int),
    {
        broadcast use vstd::std_specs::hash::group_hash_axioms;

        match self.words.get(&address) {
            Some(word) => *word,
            None => 0,
        }
    }

    pub fn write_word(&mut self, address: u64, word: u64)
        ensures
            forall|other: int|
                final(self).word(other) == if other == address {
                    word
                } else {
                    old(self).word(other)
                },
    {
        broadcast use vstd::std_specs::hash::group_hash_axioms;

        self.words.insert(address, word);
    }
}

} // verus!
