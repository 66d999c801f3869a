//! File locks, which are not enforced on this platform.
use vstd::prelude::*;
use vstd::string::*;

verus! {

/// Errors of file locks.
#[derive(Debug, Clone, Copy, PartialEq, Eq, Structural)]
pub enum LockError {
    /// The file is already locked.
    AlreadyLocked,
    /// Setting the lock failed with this system error.
    Io(i32),
}

/// Kinds of lock requests.
#[derive(Debug, Clone, Copy, PartialEq, Eq, Structural)]
pub enum LockType {
    Read,
    Write,
    Unlock,
}

/// What a lock covers.
#[derive(Debug, Clone, Copy, PartialEq, Eq, Structural)]
pub enum LockGranularity {
    WholeFile,
    ByteRange(u64, u64),
}

/// State of a lock.
#[derive(Debug, Clone, Copy, PartialEq, Eq, Structural)]
pub enum LockState {
    Unlocked,
    Read,
    Write,
}

/// Choice of what a lock covers.
#[derive(Debug, Clone, Copy, PartialEq, Eq, Structural)]
pub enum LockGranularityChoice {
    Full,
    ByteRange,
}

impl Default for LockGranularityChoice {
    fn default() -> (c: Self)
        ensures
            c == LockGranularityChoice::Full,
    {
        LockGranularityChoice::Full
    }
}

/// An ASCII letter in lower case, any other character as it is.
pub open spec fn lower(c: char) -> char {
    if 'A' <= c && c <= 'Z' {
        ((c as u8 + 32) as u8) as char
    } else {
        c
    }
}

/// Two texts are the same up to the case of ASCII letters in the first.
pub open spec fn same_text(s: Seq<char>, word: Seq<char>) -> bool {
    s.len() == word.len() && forall|i: int| 0 <= i < s.len() ==> lower(#[trigger] s[i]) == word[i]
}

/// The choice that a text names: full, or byte-range with or without its
/// hyphen, in any case.
pub open spec fn choice_of(s: Seq<char>) -> Option<LockGranularityChoice> {
    if same_text(s, "full"@) {
        Some(LockGranularityChoice::Full)
    } else if same_text(s, "byte-range"@) || same_text(s, "byterange"@) {
        Some(LockGranularityChoice::ByteRange)
    } else {
        None
    }
}

/// Whether a text is a word, up to the case of its ASCII letters.
fn is_word(s: &str, word: &str) -> (b: bool)
    ensures
        b == same_text(s@, word@),
{
    let n: usize = s.unicode_len();
    if n != word.unicode_len() {
        return false;
    }
    let mut i: usize = 0;
    while i < n
        invariant
            i <= n == s@.len() == word@.len(),
            forall|k: int| 0 <= k < i ==> lower(#[trigger] s@[k]) == word@[k],
        decreases n - i,
    {
        let c: char = s.get_char(i);
        let l: char = if 'A' <= c && c <= 'Z' {
            (c as u8 + 32) as char
        } else {
            c
        };
        if l != word.get_char(i) {
            assert(lower(s@[i as int]) != word@[i as int]);
            return false;
        }
        i += 1;
    }
    true
}

impl LockGranularityChoice {
    /// Parses a choice. The error names the text that is none.
    pub fn parse(s: &str) -> (r: Result<Self, String>)
        ensures
            match r {
                Ok(c) => choice_of(s@) == Some(c),
                Err(e) => choice_of(s@) is None && e@ == "Unknown lock granularity: "@ + s@,
            },
    {
        if is_word(s, "full") {
            Ok(LockGranularityChoice::Full)
        } else if is_word(s, "byte-range") || is_word(s, "byterange") {
            Ok(LockGranularityChoice::ByteRange)
        } else {
            let mut e: String = "Unknown lock granularity: ".to_owned();
            e.append(s);
            Err(e)
        }
    }
}

impl std::str::FromStr for LockGranularityChoice {
    type Err = String;

    fn from_str(s: &str) -> (r: Result<Self, String>)
        ensures
            match r {
                Ok(c) => choice_of(s@) == Some(c),
                Err(e) => choice_of(s@) is None && e@ == "Unknown lock granularity: "@ + s@,
            },
    {
        LockGranularityChoice::parse(s)
    }
}

/// Tries to acquire a lock, which succeeds.
pub fn try_acquire_lock<F>(_file: &F, _lock_type: LockType, _granularity: LockGranularity) -> (r:
    Result<(), LockError>)
    ensures
        r == Ok::<(), LockError>(()),
{
    Ok(())
}

/// Releases a lock, which succeeds.
pub fn clear_lock<F>(_file: &F, _granularity: LockGranularity) -> (r: Result<(), LockError>)
    ensures
        r == Ok::<(), LockError>(()),
{
    Ok(())
}

/// The state of a lock: no file is locked.
pub fn get_lock_state<F>(_file: &F, _granularity: LockGranularity) -> (r: Result<
    LockState,
    LockError,
>)
    ensures
        r == Ok::<LockState, LockError>(LockState::Unlocked),
{
    Ok(LockState::Unlocked)
}

/// A text names the choice of whole files exactly where its letters are those of
/// full, and that of byte ranges exactly where they are those of byterange, or of
/// byte-range with its hyphen, each letter in either case; no other text names one.
pub proof fn choices_are_named_in_any_case(s: Seq<char>)
    ensures
        choice_of(s) == Some(LockGranularityChoice::Full) <==> s.len() == 4 && is_letter(s[0], 'f')
            && is_letter(s[1], 'u') && is_letter(s[2], 'l') && is_letter(s[3], 'l'),
        choice_of(s) == Some(LockGranularityChoice::ByteRange) <==> {
            let b = s.len() >= 9 && is_letter(s[0], 'b') && is_letter(s[1], 'y') && is_letter(
                s[2],
                't',
            ) && is_letter(s[3], 'e');
            ||| b && s.len() == 9 && is_letter(s[4], 'r') && is_letter(s[5], 'a') && is_letter(
                s[6],
                'n',
            ) && is_letter(s[7], 'g') && is_letter(s[8], 'e')
            ||| b && s.len() == 10 && s[4] == '-' && is_letter(s[5], 'r') && is_letter(s[6], 'a')
                && is_letter(s[7], 'n') && is_letter(s[8], 'g') && is_letter(s[9], 'e')
        },
{
    reveal_strlit("full");
    reveal_strlit("byte-range");
    reveal_strlit("byterange");
    if s.len() == 4 {
        letters_in_either_case(s[0], 'f');
        letters_in_either_case(s[1], 'u');
        letters_in_either_case(s[2], 'l');
        letters_in_either_case(s[3], 'l');
        if same_text(s, "full"@) {
            assert(lower(s[0]) == 'f' && lower(s[1]) == 'u' && lower(s[2]) == 'l' && lower(s[3])
                == 'l');
        }
    }
    if s.len() >= 9 {
        letters_in_either_case(s[0], 'b');
        letters_in_either_case(s[1], 'y');
        letters_in_either_case(s[2], 't');
        letters_in_either_case(s[3], 'e');
    }
    if s.len() == 9 {
        letters_in_either_case(s[4], 'r');
        letters_in_either_case(s[5], 'a');
        letters_in_either_case(s[6], 'n');
        letters_in_either_case(s[7], 'g');
        letters_in_either_case(s[8], 'e');
        if same_text(s, "byterange"@) {
            assert(lower(s[0]) == 'b' && lower(s[1]) == 'y' && lower(s[2]) == 't' && lower(s[3])
                == 'e' && lower(s[4]) == 'r');
            assert(lower(s[5]) == 'a' && lower(s[6]) == 'n' && lower(s[7]) == 'g' && lower(s[8])
                == 'e');
        }
    }
    if s.len() == 10 {
        letters_in_either_case(s[5], 'r');
        letters_in_either_case(s[6], 'a');
        letters_in_either_case(s[7], 'n');
        letters_in_either_case(s[8], 'g');
        letters_in_either_case(s[9], 'e');
        assert(lower(s[4]) == '-' <==> s[4] == '-');
        if same_text(s, "byte-range"@) {
            assert(lower(s[0]) == 'b' && lower(s[1]) == 'y' && lower(s[2]) == 't' && lower(s[3])
                == 'e' && lower(s[4]) == '-');
            assert(lower(s[5]) == 'r' && lower(s[6]) == 'a' && lower(s[7]) == 'n' && lower(s[8])
                == 'g' && lower(s[9]) == 'e');
        }
    }
}

/// A character is a small letter, or the capital of it.
pub open spec fn is_letter(c: char, small: char) -> bool {
    c == small || c as u32 + 32 == small as u32
}

proof fn letters_in_either_case(c: char, small: char)
    requires
        'a' <= small <= 'z',
    ensures
        lower(c) == small <==> is_letter(c, small),
{
}

} // verus!
