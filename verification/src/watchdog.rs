use vstd::prelude::*;

verus! {

/// The verification word's value when the watchdog starts and when each
/// round begins.
pub const ROUND_START_WORD: u32 = 0x1111_1111;

/// The places in the watchdog's loop where the verification word is checked.
#[derive(Clone, Copy, Debug, PartialEq, Eq, Structural)]
pub enum Checkpoint {
    /// Once, before the loop.
    Startup,
    /// At the start of a round.
    RoundStart,
    /// After the process and hardware listings were taken.
    Sampled,
    /// After the listings were compared with the previous ones.
    Compared,
    /// After the pause at the end of a round.
    Rested,
}

impl Checkpoint {
    /// The value that the word must hold at this checkpoint.
    pub open spec fn spec_expected(self) -> u32 {
        match self {
            Checkpoint::Startup => 0x1111_1111,
            Checkpoint::RoundStart => 0x1111_1111,
            Checkpoint::Sampled => 0x3333_3333,
            Checkpoint::Compared => 0x7777_7777,
            Checkpoint::Rested => 0xFFFF_FFFF,
        }
    }

    /// The word once this checkpoint has passed: the start-up check leaves it
    /// alone, the next three add to it (wrapping as an atomic `fetch_add`
    /// does), and the last sets it back for the next round.
    pub open spec fn spec_next_word(self, word: u32) -> u32 {
        match self {
            Checkpoint::Startup => word,
            Checkpoint::RoundStart => vstd::wrapping::u32_specs::wrapping_add(word, 0x2222_2222),
            Checkpoint::Sampled => vstd::wrapping::u32_specs::wrapping_add(word, 0x4444_4444),
            Checkpoint::Compared => vstd::wrapping::u32_specs::wrapping_add(word, 0x8888_8888),
            Checkpoint::Rested => ROUND_START_WORD,
        }
    }

    /// The notice to print when the word does not hold its value here.
    pub open spec fn spec_notice(self) -> Seq<char> {
        match self {
            Checkpoint::Startup => "Register does not match, rebooting"@,
            Checkpoint::RoundStart => "Register does not match 0x1111 1111, rebooting"@,
            Checkpoint::Sampled => "Register does not match 0x3333 3333, rebooting"@,
            Checkpoint::Compared => "Register does not match 0x7777 7777, rebooting"@,
            Checkpoint::Rested => "Register does not match 0xFFFF FFFF, rebooting"@,
        }
    }

    /// The value that the word must hold at this checkpoint.
    pub fn expected(&self) -> (w: u32)
        ensures
            w == self.spec_expected(),
    {
        match self {
            Checkpoint::Startup => 0x1111_1111,
            Checkpoint::RoundStart => 0x1111_1111,
            Checkpoint::Sampled => 0x3333_3333,
            Checkpoint::Compared => 0x7777_7777,
            Checkpoint::Rested => 0xFFFF_FFFF,
        }
    }

    /// The notice to print when the word does not hold its value here.
    pub fn notice(&self) -> (s: &'static str)
        ensures
            s@ == self.spec_notice(),
    {
        match self {
            Checkpoint::Startup => "Register does not match, rebooting",
            Checkpoint::RoundStart => "Register does not match 0x1111 1111, rebooting",
            Checkpoint::Sampled => "Register does not match 0x3333 3333, rebooting",
            Checkpoint::Compared => "Register does not match 0x7777 7777, rebooting",
            Checkpoint::Rested => "Register does not match 0xFFFF FFFF, rebooting",
        }
    }

    /// Checks the word: the notice when it does not hold its value here.
    pub fn check(&self, word: u32) -> (r: Option<&'static str>)
        ensures
            word == self.spec_expected() ==> r is None,
            word != self.spec_expected() ==> (r matches Some(s) && s@ == self.spec_notice()),
    {
        if word == self.expected() {
            None
        } else {
            Some(self.notice())
        }
    }

    /// The word once this checkpoint has passed: see `spec_next_word`.
    pub fn next_word(&self, word: u32) -> (w: u32)
        ensures
            w == self.spec_next_word(word),
    {
        match self {
            Checkpoint::Startup => word,
            Checkpoint::RoundStart => word.wrapping_add(0x2222_2222),
            Checkpoint::Sampled => word.wrapping_add(0x4444_4444),
            Checkpoint::Compared => word.wrapping_add(0x8888_8888),
            Checkpoint::Rested => ROUND_START_WORD,
        }
    }
}

/// The word after a whole round, from a value `word` at its start.
pub open spec fn after_round(word: u32) -> u32 {
    Checkpoint::Rested.spec_next_word(
        Checkpoint::Compared.spec_next_word(
            Checkpoint::Sampled.spec_next_word(Checkpoint::RoundStart.spec_next_word(word)),
        ),
    )
}

/// A round in which nothing else touches the word passes every check and
/// ends with the word as it began.
pub proof fn law_clean_round_passes()
    ensures
        Checkpoint::Startup.spec_expected() == ROUND_START_WORD,
        Checkpoint::RoundStart.spec_expected() == ROUND_START_WORD,
        Checkpoint::RoundStart.spec_next_word(ROUND_START_WORD) == Checkpoint::Sampled.spec_expected(),
        Checkpoint::Sampled.spec_next_word(Checkpoint::Sampled.spec_expected())
            == Checkpoint::Compared.spec_expected(),
        Checkpoint::Compared.spec_next_word(Checkpoint::Compared.spec_expected())
            == Checkpoint::Rested.spec_expected(),
        after_round(ROUND_START_WORD) == ROUND_START_WORD,
{
}

/// A word that is wrong when a round begins stays wrong at every later check
/// of that round, and a right one stays right: the additions lose nothing.
pub proof fn law_wrong_word_stays_wrong(word: u32)
    ensures
        (Checkpoint::RoundStart.spec_next_word(word) == Checkpoint::Sampled.spec_expected())
            <==> word == ROUND_START_WORD,
        (Checkpoint::Sampled.spec_next_word(Checkpoint::RoundStart.spec_next_word(word))
            == Checkpoint::Compared.spec_expected()) <==> word == ROUND_START_WORD,
        (Checkpoint::Compared.spec_next_word(
            Checkpoint::Sampled.spec_next_word(Checkpoint::RoundStart.spec_next_word(word)),
        ) == Checkpoint::Rested.spec_expected()) <==> word == ROUND_START_WORD,
        after_round(word) == ROUND_START_WORD,
{
}

/// The words the checks expect are those of the original sequence
/// 0x1111_1111, 0x3333_3333, 0x7777_7777, 0xFFFF_FFFF, each reached from the
/// one before by the next addition, with the last setting the word back.
pub proof fn law_checkpoint_words(word: u32)
    ensures
        Checkpoint::Startup.spec_expected() == 0x1111_1111u32,
        Checkpoint::RoundStart.spec_expected() == 0x1111_1111u32,
        Checkpoint::Sampled.spec_expected() == 0x3333_3333u32,
        Checkpoint::Compared.spec_expected() == 0x7777_7777u32,
        Checkpoint::Rested.spec_expected() == 0xFFFF_FFFFu32,
        Checkpoint::Startup.spec_next_word(word) == word,
        Checkpoint::RoundStart.spec_next_word(word) as int == (word as int + 0x2222_2222) % 0x1_0000_0000,
        Checkpoint::Sampled.spec_next_word(word) as int == (word as int + 0x4444_4444) % 0x1_0000_0000,
        Checkpoint::Compared.spec_next_word(word) as int == (word as int + 0x8888_8888) % 0x1_0000_0000,
        Checkpoint::Rested.spec_next_word(word) == 0x1111_1111u32,
{
}

} // verus!
