use vstd::prelude::*;

use crate::types::LinkoraError;

verus! {

/// Fewest bytes in a username.
pub const MIN_USERNAME_LEN: u32 = 3;

/// Most bytes in a username.
pub const MAX_USERNAME_LEN: u32 = 32;

/// Fewest bytes in the content of a post.
pub const MIN_CONTENT_LEN: u32 = 1;

/// Most bytes in the content of a post.
pub const MAX_CONTENT_LEN: u32 = 280;

/// A byte that may occur in a username: an ASCII letter, an ASCII digit or `_`.
pub open spec fn is_username_byte(b: u8) -> bool {
    ||| 48 <= b <= 57
    ||| 65 <= b <= 90
    ||| 97 <= b <= 122
    ||| b == 95
}

/// The verdict on a username: its length is checked first, then its bytes.
pub open spec fn username_verdict(username: Seq<u8>) -> Result<(), LinkoraError> {
    if username.len() < MIN_USERNAME_LEN {
        Err(LinkoraError::UsernameTooShort)
    } else if username.len() > MAX_USERNAME_LEN {
        Err(LinkoraError::UsernameTooLong)
    } else if exists|i: int| 0 <= i < username.len() && !is_username_byte(#[trigger] username[i]) {
        Err(LinkoraError::UsernameInvalidCharacters)
    } else {
        Ok(())
    }
}

/// The verdict on the content of a post: only its length matters.
pub open spec fn content_verdict(content: Seq<u8>) -> Result<(), LinkoraError> {
    if content.len() < MIN_CONTENT_LEN {
        Err(LinkoraError::ContentEmpty)
    } else if content.len() > MAX_CONTENT_LEN {
        Err(LinkoraError::ContentTooLong)
    } else {
        Ok(())
    }
}

fn is_username_char(b: u8) -> (r: bool)
    ensures
        r == is_username_byte(b),
{
    (b >= 48 && b <= 57) || (b >= 65 && b <= 90) || (b >= 97 && b <= 122) || b == 95
}

/// Checks that a username has between 3 and 32 bytes, each an ASCII letter,
/// an ASCII digit or `_`.
pub fn validate_username(username: &Vec<u8>) -> (r: Result<(), LinkoraError>)
    ensures
        r == username_verdict(username@),
{
    let len: usize = username.len();
    if len < MIN_USERNAME_LEN as usize {
        return Err(LinkoraError::UsernameTooShort);
    }
    if len > MAX_USERNAME_LEN as usize {
        return Err(LinkoraError::UsernameTooLong);
    }
    let mut i: usize = 0;
    while i < len
        invariant
            len == username.len(),
            MIN_USERNAME_LEN <= len <= MAX_USERNAME_LEN,
            i <= len,
            forall|j: int| 0 <= j < i ==> is_username_byte(#[trigger] username@[j]),
        decreases len - i,
    {
        if !is_username_char(username[i]) {
            assert(!is_username_byte(username@[i as int]));

            return Err(LinkoraError::UsernameInvalidCharacters);
        }
        i = i + 1;
    }
    Ok(())
}

/// Checks that the content of a post has between 1 and 280 bytes.
pub fn validate_content(content: &Vec<u8>) -> (r: Result<(), LinkoraError>)
    ensures
        r == content_verdict(content@),
{
    let len: usize = content.len();
    if len < MIN_CONTENT_LEN as usize {
        return Err(LinkoraError::ContentEmpty);
    }
    if len > MAX_CONTENT_LEN as usize {
        return Err(LinkoraError::ContentTooLong);
    }
    Ok(())
}

} // verus!
