use crate::decimal::{
    decimal_text, lemma_decimal_text_digits, parse_decimal, parse_u128, push_decimal,
};
use crate::text::chars_of;
use vstd::prelude::*;
use vstd::slice::slice_subrange;

verus! {

/// How long a session lasts from the moment it is granted: seven days, in
/// milliseconds.
pub const SESSION_MILLIS: u128 = 604_800_000;

/// Whether `i` is the place of the first space in `s`.
pub open spec fn is_first_space(s: Seq<char>, i: int) -> bool {
    &&& 0 <= i < s.len()
    &&& s[i] == ' '
    &&& forall|j: int| 0 <= j < i ==> s[j] != ' '
}

/// A session token as it is read off the wire: the expiry in milliseconds
/// since the epoch, and the name of the user it was granted to.
pub struct TokenFields {
    pub expiry: u128,
    pub username: Seq<char>,
}

/// The text of the token that grants `username` a session until `expiry`:
/// the expiry in decimal, one space, the name.
pub open spec fn token_text(expiry: u128, username: Seq<char>) -> Seq<char> {
    decimal_text(expiry as nat) + seq![' '] + username
}

/// What a text says as a token. The first space parts the expiry from the
/// name; a text without a space, or whose first field is not a number that
/// fits in 128 bits, is no token.
pub open spec fn token_fields(s: Seq<char>) -> Option<TokenFields> {
    if exists|i: int| is_first_space(s, i) {
        let i = choose|i: int| is_first_space(s, i);
        match parse_decimal(s.take(i)) {
            Some(expiry) => Some(TokenFields { expiry, username: s.skip(i + 1) }),
            None => None,
        }
    } else {
        None
    }
}

/// The moment at which a session granted at `now` ends. The sum stays at the
/// largest moment that 128 bits can hold rather than wrapping round.
pub open spec fn expiry_from(now: u128) -> u128 {
    if now + SESSION_MILLIS > u128::MAX {
        u128::MAX
    } else {
        (now + SESSION_MILLIS) as u128
    }
}

/// A text has at most one first space.
pub proof fn lemma_first_space_unique(s: Seq<char>, i: int, k: int)
    requires
        is_first_space(s, i),
        is_first_space(s, k),
    ensures
        i == k,
{
}

/// Reading the text of a token gives back the expiry and the name it was
/// written from, whatever the name holds.
pub proof fn lemma_token_fields_of_text(expiry: u128, username: Seq<char>)
    ensures
        token_fields(token_text(expiry, username)) == Some(TokenFields { expiry, username }),
{
    let number = decimal_text(expiry as nat);
    let s = token_text(expiry, username);
    let i = number.len() as int;
    lemma_decimal_text_digits(expiry as nat);
    assert(is_first_space(s, i));
    assert(s.take(i) =~= number);
    assert(s.skip(i + 1) =~= username);
}

/// Writes the token that grants `username` a session until `expiry`.
pub fn write_token(expiry: u128, username: &str) -> (token: String)
    ensures
        token@ == token_text(expiry, username@),
{
    let mut token = String::new();
    push_decimal(&mut token, expiry);
    token.append(" ");
    token.append(username);
    proof {
        reveal_strlit(" ");
    }
    token
}

/// The moment at which a session granted at `now` ends.
pub fn session_expiry(now: u128) -> (expiry: u128)
    ensures
        expiry == expiry_from(now),
{
    now.saturating_add(SESSION_MILLIS)
}

/// Reads a token off the wire: its expiry, and its user name as a `String`.
pub fn read_token(token: &str) -> (fields: Option<(u128, String)>)
    ensures
        match token_fields(token@) {
            Some(f) => fields matches Some(pair) && pair.0 == f.expiry && pair.1@ == f.username,
            None => fields is None,
        },
{
    let chars = chars_of(token);
    let n: usize = chars.len();
    let mut i: usize = 0;
    while i < n && chars[i] != ' '
        invariant
            i <= n,
            n == chars.len(),
            forall|j: int| 0 <= j < i ==> chars@[j] != ' ',
        decreases n - i,
    {
        i = i + 1;
    }
    if i == n {
        return None;
    }
    proof {
        let chosen = choose|k: int| is_first_space(token@, k);
        lemma_first_space_unique(token@, i as int, chosen);
    }
    let field = slice_subrange(chars.as_slice(), 0, i);
    match parse_u128(field) {
        Some(expiry) => {
            let name = token.substring_char(i + 1, n);
            Some((expiry, String::from_str(name)))
        },
        None => None,
    }
}

} // verus!
