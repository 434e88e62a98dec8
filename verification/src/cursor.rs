//! Keyset-pagination positions and the opaque tokens clients hold them in.

use vstd::prelude::*;
use vstd::utf8::{decode_utf8, encode_utf8, valid_utf8};
use base64::Engine;
use base64::engine::general_purpose::URL_SAFE_NO_PAD;
use crate::ids::{uuid_from_text, uuid_reading, uuid_text, uuid_to_text};
use crate::text::{chars_of, find_char, first_index, lemma_first_index_bounds, lemma_first_index_unique, push_char, string_of_chars};
use crate::time::{Timestamp, chrono_rfc3339, chrono_rfc3339_reading, four_digit_year};

verus! {

broadcast use vstd::string::group_string_axioms;

/// The unpadded URL-safe base64 text of `bytes`, as the `base64` crate
/// writes it.
pub uninterp spec fn base64url_encoding(bytes: Seq<u8>) -> Seq<char>;

/// The bytes the `base64` crate reads from unpadded URL-safe base64 text,
/// or `None` when it rejects the text.
pub uninterp spec fn base64url_decoding(text: Seq<char>) -> Option<Seq<u8>>;

/// A character of the URL-safe base64 alphabet: `A`-`Z`, `a`-`z`, `0`-`9`,
/// `-` and `_`.
pub open spec fn url_safe_char(c: char) -> bool {
    ||| 'A' <= c <= 'Z'
    ||| 'a' <= c <= 'z'
    ||| '0' <= c <= '9'
    ||| c == '-'
    ||| c == '_'
}

/// `URL_SAFE_NO_PAD.encode(bytes)`. The engine writes the canonical
/// unpadded encoding in the URL-safe alphabet (no `=`), which its decoder
/// (padding refused, canonical trailing bits) reads back as the same
/// bytes.
#[verifier::external_body]
fn encode_base64url(bytes: &[u8]) -> (r: String)
    ensures
        r@ == base64url_encoding(bytes@),
        base64url_decoding(r@) == Some(bytes@),
        forall|i: int| 0 <= i < r@.len() ==> url_safe_char(#[trigger] r@[i]),
{
    URL_SAFE_NO_PAD.encode(bytes)
}

/// `URL_SAFE_NO_PAD.decode(text.as_bytes())`, its error dropped.
#[verifier::external_body]
fn decode_base64url(text: &str) -> (r: Option<Vec<u8>>)
    ensures
        r is None <==> base64url_decoding(text@) is None,
        r matches Some(b) ==> base64url_decoding(text@) == Some(b@),
{
    URL_SAFE_NO_PAD.decode(text.as_bytes()).ok()
}

/// `String::from_utf8(bytes)`, which succeeds exactly on valid UTF-8.
#[verifier::external_body]
fn utf8_string(bytes: Vec<u8>) -> (r: Option<String>)
    ensures
        r is Some <==> valid_utf8(bytes@),
        r matches Some(s) ==> s@ == decode_utf8(bytes@),
{
    String::from_utf8(bytes).ok()
}

/// The `(started_at, id)` of the last run on the previous page.
#[derive(Debug, Clone, Copy, PartialEq, Eq, Structural)]
pub struct RunCursor {
    pub started_at: Timestamp,
    pub id: u128,
}

/// Why a token is not a cursor.
#[derive(Debug)]
pub struct InvalidCursor(pub String);

impl InvalidCursor {
    /// `invalid cursor: <reason>`.
    pub fn message(&self) -> (m: String)
        ensures
            m@ == seq!['i', 'n', 'v', 'a', 'l', 'i', 'd', ' ', 'c', 'u', 'r', 's', 'o', 'r', ':', ' ']
                + self.0@,
    {
        let mut m = String::from_str("invalid cursor: ");
        proof {
            reveal_strlit("invalid cursor: ");
        }
        m.append(self.0.as_str());
        m
    }
}

/// The text a cursor token carries: the RFC 3339 start time, `|`, and the
/// hyphenated run id.
pub open spec fn cursor_text(c: RunCursor) -> Seq<char> {
    chrono_rfc3339(c.started_at.secs(), c.started_at.subsec()) + seq!['|'] + uuid_text(c.id)
}

/// The opaque token of a cursor: the base64url of its text's UTF-8 bytes.
pub open spec fn cursor_token(c: RunCursor) -> Seq<char> {
    base64url_encoding(encode_utf8(cursor_text(c)))
}

/// What reading a token gives: the start time's RFC 3339 text and the id's
/// text, or the reason it is refused.
pub open spec fn token_parts(token: Seq<char>) -> Result<(Seq<char>, Seq<char>), Seq<char>> {
    match base64url_decoding(token) {
        None => Err("not base64url"@),
        Some(bytes) => if !valid_utf8(bytes) {
            Err("not UTF-8"@)
        } else {
            let raw = decode_utf8(bytes);
            let i = first_index(raw, '|');
            if i < 0 {
                Err("missing separator"@)
            } else {
                Ok((raw.take(i), raw.skip(i + 1)))
            }
        },
    }
}

/// The reason a token is refused, or `None` when it reads as a cursor.
pub open spec fn token_refusal(token: Seq<char>) -> Option<Seq<char>> {
    match token_parts(token) {
        Err(reason) => Some(reason),
        Ok((ts, id)) => if chrono_rfc3339_reading(ts) is None {
            Some("bad timestamp"@)
        } else if uuid_reading(id) is Err {
            Some("bad run id"@)
        } else {
            None
        },
    }
}

/// What a token reads as: its start time's seconds and nanoseconds and its
/// run id, or `None` when it is refused.
pub open spec fn token_reading(token: Seq<char>) -> Option<(i64, u32, u128)> {
    match token_parts(token) {
        Err(_) => None,
        Ok((ts, id)) => match chrono_rfc3339_reading(ts) {
            None => None,
            Some((s, n)) => match uuid_reading(id) {
                Ok(i) => Some((s, n, i)),
                Err(_) => None,
            },
        },
    }
}

/// A token is refused exactly when it does not read as a start time and a
/// run id. With the contracts of `encode` and `decode` this closes the round
/// trip: a cursor whose year has four digits is accepted back from its token
/// with the same start time and id.
pub proof fn lemma_refused_iff_unreadable(token: Seq<char>)
    ensures
        token_refusal(token) is None <==> token_reading(token) is Some,
{
}

/// A cursor comes back from its own token: `decode` accepts the token that
/// `encode` gives for a cursor whose year has four digits, and any cursor it
/// gives back for that token is the cursor encoded.
pub proof fn lemma_cursor_round_trip(c: RunCursor, token: Seq<char>, back: RunCursor)
    requires
        four_digit_year(c.started_at.secs()),
        token_reading(token) == Some((c.started_at.secs(), c.started_at.subsec(), c.id)),
        token_reading(token) == Some((back.started_at.secs(), back.started_at.subsec(), back.id)),
    ensures
        token_refusal(token) is None,
        back == c,
{
    Timestamp::lemma_same_instant(back.started_at, c.started_at);
}

impl RunCursor {
    /// The cursor's opaque token. For a start time in the years 0 through
    /// 9999 the token reads back as this cursor.
    pub fn encode(&self) -> (token: String)
        ensures
            token@ == cursor_token(*self),
            forall|i: int| 0 <= i < token@.len() ==> url_safe_char(#[trigger] token@[i]),
            !token@.contains('|'),
            four_digit_year(self.started_at.secs()) ==> token_reading(token@) == Some(
                (self.started_at.secs(), self.started_at.subsec(), self.id),
            ),
    {
        let stamp = self.started_at.to_rfc3339();
        let mut raw = stamp.clone();
        push_char(&mut raw, '|');
        let id = uuid_to_text(self.id);
        raw.append(id.as_str());
        assert(raw@ =~= cursor_text(*self));
        let token = encode_base64url(raw.as_str().as_bytes());
        proof {
            if token@.contains('|') {
                let k = choose|k: int| 0 <= k < token@.len() && token@[k] == '|';
                assert(url_safe_char(token@[k]));
            }
            broadcast use vstd::utf8::encode_utf8_valid_utf8, vstd::utf8::encode_utf8_decode_utf8;

            let bytes = encode_utf8(raw@);
            assert(valid_utf8(bytes));
            assert(decode_utf8(bytes) == raw@);
            let n = stamp@.len() as int;
            assert(raw@[n] == '|');
            assert forall|j: int| 0 <= j < n implies raw@[j] != '|' by {
                assert(raw@[j] == stamp@[j]);
                if raw@[j] == '|' {
                    assert(stamp@.contains('|'));
                }
            }
            lemma_first_index_unique(raw@, '|', n);
            assert(raw@.take(n) =~= stamp@);
            assert(raw@.skip(n + 1) =~= id@);
        }
        token
    }

    /// The cursor a token holds. Refused, with the reason, when it is not
    /// base64url, not UTF-8, has no `|`, or its parts are not an RFC 3339
    /// time and a UUID.
    pub fn decode(token: &str) -> (r: Result<RunCursor, InvalidCursor>)
        ensures
            token_refusal(token@) is Some <==> r is Err,
            r matches Err(e) ==> Some(e.0@) == token_refusal(token@),
            r matches Ok(c) ==> token_reading(token@) == Some((c.started_at.secs(), c.started_at.subsec(), c.id)),
            r matches Ok(c) ==> {
                &&& token_parts(token@) matches Ok((ts, id))
                &&& chrono_rfc3339_reading(ts) == Some((c.started_at.secs(), c.started_at.subsec()))
                &&& uuid_reading(id) == Ok::<u128, Seq<char>>(c.id)
            },
    {
        proof {
            reveal_strlit("not base64url");
            reveal_strlit("not UTF-8");
            reveal_strlit("missing separator");
            reveal_strlit("bad timestamp");
            reveal_strlit("bad run id");
        }
        let bytes = match decode_base64url(token) {
            Some(b) => b,
            None => return Err(InvalidCursor(String::from_str("not base64url"))),
        };
        let raw = match utf8_string(bytes) {
            Some(s) => s,
            None => return Err(InvalidCursor(String::from_str("not UTF-8"))),
        };
        let cs = chars_of(raw.as_str());
        let i = match find_char(&cs, '|') {
            Some(i) => i,
            None => return Err(InvalidCursor(String::from_str("missing separator"))),
        };
        proof {
            lemma_first_index_bounds(cs@, '|');
        }
        let ts = string_of_chars(&cs, 0, i);
        let id = string_of_chars(&cs, i + 1, cs.len());
        assert(ts@ == cs@.take(i as int));
        assert(id@ == cs@.skip(i + 1));
        let started_at = match Timestamp::parse_rfc3339(ts.as_str()) {
            Some(t) => t,
            None => return Err(InvalidCursor(String::from_str("bad timestamp"))),
        };
        match uuid_from_text(id.as_str()) {
            Ok(id) => Ok(RunCursor { started_at, id }),
            Err(_) => Err(InvalidCursor(String::from_str("bad run id"))),
        }
    }
}

} // verus!
