//! Loader for hex text files.
//!
//! This loader reads a simple, text-based hex format and turns it into a
//! `SliceMemory`.
//!
//! # Format
//! The text consists of whitespace-separated tokens. A token of one to eight
//! hexadecimal digits is a word; with a minus `-` in front, it is the negative
//! of that number. A token that starts with `#` begins a comment: it and
//! everything up to the end of the line is discarded.
//!
//! ```text
//! DEADBEEF # Numbers are hexadecimal, even without a prefix
//! 1 10 100 # Numbers can have any number of digits up to eight
//! -5       # ... and they can be negative
//! ```
use crate::loader::{word_of, LoadError, LoadErrorModel, NumeralError};
use crate::memory::slicememory::SliceMemory;
use vstd::prelude::*;
use vstd::string::{StrSliceExecFns, StringExecFns};

verus! {

/// Whether `c` is whitespace, which separates tokens.
pub open spec fn is_space(c: char) -> bool {
    let code = c as u32;
    ||| 0x09 <= code <= 0x0D
    ||| code == 0x20
    ||| code == 0x85
    ||| code == 0xA0
    ||| code == 0x1680
    ||| 0x2000 <= code <= 0x200A
    ||| code == 0x2028
    ||| code == 0x2029
    ||| code == 0x202F
    ||| code == 0x205F
    ||| code == 0x3000
}

/// The value of the hexadecimal digit `c`; none where `c` is no such digit.
pub open spec fn digit_value(c: char) -> Option<nat> {
    let code = c as u32;
    if 0x30 <= code <= 0x39 {
        Some((code - 0x30) as nat)
    } else if 0x41 <= code <= 0x46 {
        Some((code - 0x41 + 10) as nat)
    } else if 0x61 <= code <= 0x66 {
        Some((code - 0x61 + 10) as nat)
    } else {
        None
    }
}

/// The number that a sequence of hexadecimal digits stands for.
pub open spec fn hex_value(digits: Seq<char>) -> nat
    decreases digits.len(),
{
    if digits.len() == 0 {
        0
    } else {
        hex_value(digits.drop_last()) * 16 + digit_value(digits.last()).unwrap_or(0)
    }
}

/// What stands in front of the token in the message about a token that holds
/// a character that is neither a hexadecimal digit nor a minus.
pub open spec fn non_hex_message() -> Seq<char> {
    "Word contains non-hexnumeric characters: "@
}

/// The word that a token stands for.
///
/// A token with a character in it that is neither a hexadecimal digit nor a
/// minus is an error with a message. Of the others, a token is a numeral if it
/// is one to eight digits, or a minus and one to eight digits that stand for
/// no more than `2^31`.
pub open spec fn token_word(token: Seq<char>) -> Result<i32, LoadErrorModel> {
    let negative = token.len() > 0 && token[0] == '-';
    let digits = if negative {
        token.drop_first()
    } else {
        token
    };
    if exists|i: int| 0 <= i < token.len() && digit_value(#[trigger] token[i]) is None && token[i] != '-' {
        Err(LoadErrorModel::Message(non_hex_message() + token))
    } else if digits.len() == 0 || digits.contains('-') {
        Err(LoadErrorModel::ParseIntErr(NumeralError::InvalidDigit))
    } else if digits.len() > 8 {
        Err(
            LoadErrorModel::ParseIntErr(
                if negative {
                    NumeralError::NegOverflow
                } else {
                    NumeralError::PosOverflow
                },
            ),
        )
    } else if negative {
        if hex_value(digits) > 0x8000_0000 {
            Err(LoadErrorModel::ParseIntErr(NumeralError::NegOverflow))
        } else {
            Ok((-hex_value(digits)) as i32)
        }
    } else {
        Ok(word_of(hex_value(digits)))
    }
}

/// The number of characters from `start` on up to the next whitespace or the
/// end of the text.
pub open spec fn token_len(text: Seq<char>, start: int) -> nat
    decreases text.len() - start,
{
    if start < 0 || start >= text.len() || is_space(text[start]) {
        0
    } else {
        1 + token_len(text, start + 1)
    }
}

/// The number of characters from `start` on up to the end of the line or of
/// the text.
pub open spec fn comment_len(text: Seq<char>, start: int) -> nat
    decreases text.len() - start,
{
    if start < 0 || start >= text.len() || text[start] == '\n' {
        0
    } else {
        1 + comment_len(text, start + 1)
    }
}

/// A token ends within the text.
pub proof fn lemma_token_len_bound(text: Seq<char>, start: int)
    requires
        0 <= start <= text.len(),
    ensures
        start + token_len(text, start) <= text.len(),
    decreases text.len() - start,
{
    if start < text.len() && !is_space(text[start]) {
        lemma_token_len_bound(text, start + 1);
    }
}

/// A comment ends within the text.
pub proof fn lemma_comment_len_bound(text: Seq<char>, start: int)
    requires
        0 <= start <= text.len(),
    ensures
        start + comment_len(text, start) <= text.len(),
    decreases text.len() - start,
{
    if start < text.len() && text[start] != '\n' {
        lemma_comment_len_bound(text, start + 1);
    }
}

/// The words that the text from `start` on holds, where `start` is not inside
/// a token or a comment; the error of the first token that is no word and
/// stands in no comment.
pub open spec fn words_from(text: Seq<char>, start: int) -> Result<Seq<i32>, LoadErrorModel>
    decreases text.len() - start,
{
    if start < 0 || start >= text.len() {
        Ok(Seq::empty())
    } else if is_space(text[start]) {
        words_from(text, start + 1)
    } else if text[start] == '#' {
        proof {
            lemma_comment_len_bound(text, start + 1);
        }
        words_from(text, start + 1 + comment_len(text, start + 1))
    } else {
        proof {
            lemma_token_len_bound(text, start + 1);
        }
        let end = start + 1 + token_len(text, start + 1);
        match token_word(text.subrange(start, end)) {
            Err(error) => Err(error),
            Ok(word) => match words_from(text, end) {
                Err(error) => Err(error),
                Ok(words) => Ok(seq![word] + words),
            },
        }
    }
}

/// The words that a hex text holds, or the error of the first token that is
/// no word.
pub open spec fn words(text: Seq<char>) -> Result<Seq<i32>, LoadErrorModel> {
    words_from(text, 0)
}

/// Sixteen to the power of `n`.
pub open spec fn pow16(n: nat) -> nat
    decreases n,
{
    if n == 0 {
        1
    } else {
        16 * pow16((n - 1) as nat)
    }
}

/// Up to eight hexadecimal digits stand for a number below `2^32`.
pub proof fn lemma_pow16_eight(n: nat)
    requires
        n <= 8,
    ensures
        pow16(n) <= 0x1_0000_0000,
{
    reveal_with_fuel(pow16, 9);
}

/// `words` with `rest` behind them, where `rest` is no error.
spec fn followed_by(words: Seq<i32>, rest: Result<Seq<i32>, LoadErrorModel>) -> Result<
    Seq<i32>,
    LoadErrorModel,
> {
    match rest {
        Ok(more) => Ok(words + more),
        Err(error) => Err(error),
    }
}

fn is_space_char(c: char) -> (b: bool)
    ensures
        b == is_space(c),
{
    let code = c as u32;
    (0x09 <= code && code <= 0x0D) || code == 0x20 || code == 0x85 || code == 0xA0 || code
        == 0x1680 || (0x2000 <= code && code <= 0x200A) || code == 0x2028 || code == 0x2029 || code
        == 0x202F || code == 0x205F || code == 0x3000
}

fn digit_of(c: char) -> (digit: Option<u64>)
    ensures
        match digit {
            Some(value) => digit_value(c) == Some(value as nat) && value < 16,
            None => digit_value(c) is None,
        },
{
    let code = c as u32;
    if 0x30 <= code && code <= 0x39 {
        Some((code - 0x30) as u64)
    } else if 0x41 <= code && code <= 0x46 {
        Some((code - 0x41 + 10) as u64)
    } else if 0x61 <= code && code <= 0x66 {
        Some((code - 0x61 + 10) as u64)
    } else {
        None
    }
}

/// The characters of `text`, one by one.
fn chars_of(text: &str) -> (chars: Vec<char>)
    ensures
        chars@ == text@,
{
    let mut chars: Vec<char> = Vec::new();
    for c in iter: text.chars()
        invariant
            iter.seq() == text@,
            chars@ == iter.seq().take(iter.index()),
    {
        chars.push(c);
    }
    chars
}

/// Where the token that starts at `start` ends.
fn token_end(chars: &Vec<char>, start: usize) -> (end: usize)
    requires
        start <= chars@.len(),
    ensures
        end == start + token_len(chars@, start as int),
        end <= chars@.len(),
{
    let mut end = start;
    while end < chars.len() && !is_space_char(chars[end])
        invariant
            start <= end <= chars@.len(),
            start + token_len(chars@, start as int) == end + token_len(chars@, end as int),
        decreases chars@.len() - end,
    {
        end += 1;
    }
    end
}

/// Where the line ends that `start` is in.
fn line_end(chars: &Vec<char>, start: usize) -> (end: usize)
    requires
        start <= chars@.len(),
    ensures
        end == start + comment_len(chars@, start as int),
        end <= chars@.len(),
{
    let mut end = start;
    while end < chars.len() && chars[end] != '\n'
        invariant
            start <= end <= chars@.len(),
            start + comment_len(chars@, start as int) == end + comment_len(chars@, end as int),
        decreases chars@.len() - end,
    {
        end += 1;
    }
    end
}

/// Reads the token that `chars` holds from `start` up to `end`.
fn parse_token(text: &str, chars: &Vec<char>, start: usize, end: usize) -> (word: Result<
    i32,
    LoadError,
>)
    requires
        chars@ == text@,
        start < end <= chars@.len(),
    ensures
        match word {
            Ok(w) => token_word(chars@.subrange(start as int, end as int)) == Ok::<
                i32,
                LoadErrorModel,
            >(w),
            Err(error) => token_word(chars@.subrange(start as int, end as int)) == Err::<
                i32,
                LoadErrorModel,
            >(error@),
        },
{
    let ghost token = chars@.subrange(start as int, end as int);
    let mut i = start;
    while i < end
        invariant
            start <= i <= end <= chars@.len(),
            chars@ == text@,
            token == chars@.subrange(start as int, end as int),
            forall|j: int|
                0 <= j < i - start ==> digit_value(#[trigger] token[j]) is Some || token[j] == '-',
        decreases end - i,
    {
        if digit_of(chars[i]).is_none() && chars[i] != '-' {
            assert(digit_value(token[i - start]) is None && token[i - start] != '-');
            let mut message = String::from_str("Word contains non-hexnumeric characters: ");
            message.append(text.substring_char(start, end));
            assert(message@ == non_hex_message() + token);
            return Err(LoadError::Message(message));
        }
        i += 1;
    }
    let negative = chars[start] == '-';
    let first = if negative {
        start + 1
    } else {
        start
    };
    let ghost digits = chars@.subrange(first as int, end as int);
    assert(digits =~= if negative {
        token.drop_first()
    } else {
        token
    });
    if first == end {
        return Err(LoadError::ParseIntErr(NumeralError::InvalidDigit));
    }
    let mut k = first;
    while k < end
        invariant
            first <= k <= end <= chars@.len(),
            start <= first,
            negative == (token.len() > 0 && token[0] == '-'),
            token == chars@.subrange(start as int, end as int),
            digits == chars@.subrange(first as int, end as int),
            digits == if negative {
                token.drop_first()
            } else {
                token
            },
            forall|j: int|
                0 <= j < end - start ==> digit_value(#[trigger] token[j]) is Some || token[j] == '-',
            forall|j: int| 0 <= j < k - first ==> #[trigger] digits[j] != '-',
        decreases end - k,
    {
        if chars[k] == '-' {
            assert(digits[k - first] == '-');
            assert(digits.contains('-'));
            return Err(LoadError::ParseIntErr(NumeralError::InvalidDigit));
        }
        k += 1;
    }
    if end - first > 8 {
        return Err(
            LoadError::ParseIntErr(
                if negative {
                    NumeralError::NegOverflow
                } else {
                    NumeralError::PosOverflow
                },
            ),
        );
    }
    let mut value: u64 = 0;
    let mut k = first;
    assert(digits.take(0) =~= Seq::<char>::empty());
    while k < end
        invariant
            first <= k <= end <= chars@.len(),
            end - first <= 8,
            digits == chars@.subrange(first as int, end as int),
            token == chars@.subrange(start as int, end as int),
            start <= first,
            negative == (token.len() > 0 && token[0] == '-'),
            digits == if negative {
                token.drop_first()
            } else {
                token
            },
            forall|j: int|
                0 <= j < end - start ==> digit_value(#[trigger] token[j]) is Some || token[j] == '-',
            forall|j: int| 0 <= j < end - first ==> #[trigger] digits[j] != '-',
            value == hex_value(digits.take(k - first)),
            value < pow16((k - first) as nat),
        decreases end - k,
    {
        proof {
            lemma_pow16_eight((k - first) as nat);
            lemma_pow16_eight((k - first + 1) as nat);
            assert(digits.take(k - first + 1).drop_last() =~= digits.take(k - first));
            assert(digits[k - first] == token[k - start]);
        }
        let digit = digit_of(chars[k]).unwrap();
        value = value * 16 + digit;
        k += 1;
    }
    proof {
        assert(digits.take(end - first) =~= digits);
        lemma_pow16_eight((end - first) as nat);
    }
    if negative {
        if value > 0x8000_0000 {
            Err(LoadError::ParseIntErr(NumeralError::NegOverflow))
        } else {
            Ok((-(value as i64)) as i32)
        }
    } else if value >= 0x8000_0000 {
        Ok((value as i64 - 0x1_0000_0000) as i32)
    } else {
        Ok(value as i32)
    }
}

/// Loads a hex text into a memory.
pub fn load(text: &str) -> (memory: Result<SliceMemory, LoadError>)
    ensures
        match memory {
            Ok(m) => words(text@) == Ok::<Seq<i32>, LoadErrorModel>(m@.cells),
            Err(error) => words(text@) == Err::<Seq<i32>, LoadErrorModel>(error@),
        },
{
    let chars = chars_of(text);
    let mut vec: Vec<i32> = Vec::new();
    let mut i: usize = 0;
    assert(vec@ + Seq::<i32>::empty() =~= vec@);
    while i < chars.len()
        invariant
            i <= chars@.len(),
            chars@ == text@,
            words(text@) == followed_by(vec@, words_from(text@, i as int)),
        decreases chars@.len() - i,
    {
        if is_space_char(chars[i]) {
            i += 1;
        } else if chars[i] == '#' {
            i = line_end(&chars, i + 1);
        } else {
            let end = token_end(&chars, i + 1);
            match parse_token(text, &chars, i, end) {
                Err(error) => {
                    return Err(error);
                },
                Ok(word) => {
                    proof {
                        let rest = words_from(text@, end as int);
                        if let Ok(more) = rest {
                            assert(vec@.push(word) + more =~= vec@ + (seq![word] + more));
                        }
                    }
                    vec.push(word);
                    i = end;
                },
            }
        }
    }
    proof {
        assert(vec@ + Seq::<i32>::empty() =~= vec@);
    }
    Ok(SliceMemory(vec))
}

} // verus!
