//! Records of the identity service: user ids, linked Discord accounts, and
//! opaque session tokens with their hex form and digest.
use vstd::prelude::*;

verus! {

#[verifier::external_type_specification]
#[verifier::external_body]
pub struct ExFromHexError(hex::FromHexError);

#[verifier::external_type_specification]
#[verifier::external_body]
pub struct ExTimeParse(time::error::Parse);

/// Id of a Discord account.
#[derive(Clone, Debug)]
pub struct DiscordUserId(pub String);

/// Id of a user of this service.
#[derive(Clone, Debug)]
pub struct UserId(pub String);

#[derive(Clone, Debug)]
pub struct User {
    pub user_id: UserId,
}

/// A Discord account linked to a user, with the OAuth tokens Discord issued.
#[derive(Clone, Debug)]
pub struct DiscordOauthUser {
    pub discord_id: DiscordUserId,
    pub linked_to_user_id: UserId,
    pub refresh_token: String,
    pub access_token: String,
    /// Expiry as nanoseconds since the Unix epoch.
    pub expires_at: i128,
}

/// Lowercase hex digit of `n` (`0 <= n < 16`).
pub open spec fn hex_digit(n: int) -> char {
    if n < 10 { (48 + n) as char } else { (87 + n) as char }
}

/// Two lowercase hex digits per byte, high nibble first.
pub open spec fn hex_encoding(b: Seq<u8>) -> Seq<char>
    decreases b.len(),
{
    if b.len() == 0 {
        Seq::empty()
    } else {
        hex_encoding(b.drop_last()) + seq![
            hex_digit(b.last() as int / 16),
            hex_digit(b.last() as int % 16),
        ]
    }
}

/// A hex digit of either case.
pub open spec fn is_hex_char(c: char) -> bool {
    ('0' <= c && c <= '9') || ('a' <= c && c <= 'f') || ('A' <= c && c <= 'F')
}

pub open spec fn hex_char_value(c: char) -> int {
    if c <= '9' {
        c as int - 48
    } else if c <= 'F' {
        c as int - 55
    } else {
        c as int - 87
    }
}

/// An even number of hex digits.
pub open spec fn is_hex_string(s: Seq<char>) -> bool {
    s.len() % 2 == 0 && forall|i: int| 0 <= i < s.len() ==> is_hex_char(#[trigger] s[i])
}

/// The bytes that a string of hex digit pairs stands for.
pub open spec fn hex_decoding(s: Seq<char>) -> Seq<u8>
    decreases s.len(),
{
    if s.len() < 2 {
        Seq::empty()
    } else {
        hex_decoding(s.subrange(0, s.len() - 2)) + seq![
            (hex_char_value(s[s.len() - 2]) * 16 + hex_char_value(s[s.len() - 1])) as u8,
        ]
    }
}

/// The BLAKE2b-512 digest of a byte string.
pub uninterp spec fn blake2b512_of(b: Seq<u8>) -> Seq<u8>;

/// The instant an ISO 8601 timestamp denotes, in nanoseconds since the Unix
/// epoch, or `None` when the text is not such a timestamp.
pub uninterp spec fn iso8601_nanos_of(s: Seq<char>) -> Option<int>;

/// Relies on hex::encode: two lowercase digits per byte, high nibble first.
#[verifier::external_body]
fn hex_encode(b: &Vec<u8>) -> (r: String)
    ensures
        r@ == hex_encoding(b@),
{
    hex::encode(b)
}

/// Relies on hex::decode: it accepts exactly the even-length strings of hex
/// digits of either case, and decodes each pair into one byte.
#[verifier::external_body]
fn hex_decode(s: &str) -> (r: Result<Vec<u8>, hex::FromHexError>)
    ensures
        r is Ok <==> is_hex_string(s@),
        r matches Ok(v) ==> v@ == hex_decoding(s@),
{
    hex::decode(s)
}

/// Relies on blake2::Blake2b512 (through digest::Digest::digest): a 64-byte
/// digest that depends on the input alone.
#[verifier::external_body]
fn blake2b512(b: &Vec<u8>) -> (r: Vec<u8>)
    ensures
        r@ == blake2b512_of(b@),
        r@.len() == 64,
{
    <blake2::Blake2b512 as blake2::Digest>::digest(b.as_slice()).to_vec()
}

/// Relies on time::OffsetDateTime::parse with the default ISO 8601 format,
/// and on unix_timestamp_nanos, which is exact.
#[verifier::external_body]
fn parse_iso8601_nanos(s: &str) -> (r: Result<i128, time::error::Parse>)
    ensures
        r matches Ok(n) ==> iso8601_nanos_of(s@) == Some(n as int),
        r is Err ==> iso8601_nanos_of(s@) is None,
{
    time::OffsetDateTime::parse(s, &time::format_description::well_known::Iso8601::DEFAULT).map(
        |t| t.unix_timestamp_nanos(),
    )
}

/// Relies on rand::RngCore::fill_bytes over rand::thread_rng: overwrites the
/// bytes in place, keeping their number.
#[verifier::external_body]
fn fill_random(buf: &mut Vec<u8>)
    ensures
        final(buf)@.len() == old(buf)@.len(),
{
    rand::RngCore::fill_bytes(&mut rand::thread_rng(), buf.as_mut_slice())
}

/// Number of random bytes in a fresh session token.
pub const TOKEN_LENGTH: usize = 512;

/// An opaque session token.
#[derive(Clone, Debug)]
pub struct Token(pub Vec<u8>);

/// Digest of a token; only digests are stored.
#[derive(Clone, Debug)]
pub struct TokenHash(pub Vec<u8>);

impl Token {
    /// A fresh token of `TOKEN_LENGTH` random bytes.
    pub fn generate() -> (r: Token)
        ensures
            r.0@.len() == TOKEN_LENGTH,
    {
        let mut bytes: Vec<u8> = Vec::new();
        let mut i: usize = 0;
        while i < TOKEN_LENGTH
            invariant
                i <= TOKEN_LENGTH,
                bytes@.len() == i,
            decreases TOKEN_LENGTH - i,
        {
            bytes.push(0);
            i += 1;
        }
        fill_random(&mut bytes);
        Token(bytes)
    }

    pub fn get_hash(&self) -> (r: TokenHash)
        ensures
            r.0@ == blake2b512_of(self.0@),
            r.0@.len() == 64,
    {
        TokenHash(blake2b512(&self.0))
    }

    pub fn to_hex_string(&self) -> (r: String)
        ensures
            r@ == hex_encoding(self.0@),
    {
        hex_encode(&self.0)
    }

    /// The token a hex string denotes; `None` unless it is an even number of
    /// hex digits.
    pub fn from_hex_string(hex_string: &str) -> (r: Option<Token>)
        ensures
            r is Some <==> is_hex_string(hex_string@),
            r matches Some(t) ==> t.0@ == hex_decoding(hex_string@),
    {
        match hex_decode(hex_string) {
            Ok(bytes) => Some(Token(bytes)),
            Err(_) => None,
        }
    }
}

proof fn lemma_hex_digit_value(n: int)
    requires
        0 <= n < 16,
    ensures
        is_hex_char(hex_digit(n)),
        hex_char_value(hex_digit(n)) == n,
{
}

proof fn lemma_hex_encoding_len(b: Seq<u8>)
    ensures
        hex_encoding(b).len() == 2 * b.len(),
    decreases b.len(),
{
    if b.len() > 0 {
        lemma_hex_encoding_len(b.drop_last());
    }
}

/// Decoding the hex form of a token gives the token back.
pub proof fn lemma_hex_round_trip(b: Seq<u8>)
    ensures
        is_hex_string(hex_encoding(b)),
        hex_decoding(hex_encoding(b)) == b,
    decreases b.len(),
{
    lemma_hex_encoding_len(b);
    if b.len() > 0 {
        let init = b.drop_last();
        let x = b.last() as int;
        lemma_hex_round_trip(init);
        lemma_hex_encoding_len(init);
        lemma_hex_digit_value(x / 16);
        lemma_hex_digit_value(x % 16);
        let e = hex_encoding(b);
        let pre = hex_encoding(init);
        assert(e.subrange(0, e.len() - 2) =~= pre);
        assert(e[e.len() - 2] == hex_digit(x / 16));
        assert(e[e.len() - 1] == hex_digit(x % 16));
        assert(((x / 16) * 16 + x % 16) as u8 == b.last());
        assert(b =~= init.push(b.last()));
        assert forall|i: int| 0 <= i < e.len() implies is_hex_char(#[trigger] e[i]) by {
            if i < pre.len() {
                assert(e[i] == pre[i]);
            }
        }
    }
}

fn copy_bytes(b: &Vec<u8>) -> (r: Vec<u8>)
    ensures
        r@ == b@,
{
    let mut r: Vec<u8> = Vec::new();
    let mut i: usize = 0;
    while i < b.len()
        invariant
            i <= b.len(),
            r@ == b@.subrange(0, i as int),
        decreases b.len() - i,
    {
        r.push(b[i]);
        i += 1;
    }
    proof {
        assert(b@.subrange(0, b@.len() as int) =~= b@);
    }
    r
}

/// Why a stored token record could not be judged.
#[derive(Clone, Copy, Debug, PartialEq, Eq, Structural)]
pub enum StoredTimestampError {
    /// The stored expiry is not an ISO 8601 timestamp.
    Invalid,
}

/// A token grants access strictly before its expiry.
pub fn owner_if_unexpired(user_id: UserId, expires_at: i128, now: i128) -> (r: Option<UserId>)
    ensures
        r is Some <==> now < expires_at,
        r matches Some(u) ==> u.0@ == user_id.0@,
{
    if expires_at <= now {
        None
    } else {
        Some(user_id)
    }
}

/// The owner of a looked-up token at time `now` (nanoseconds since the Unix
/// epoch): `None` when no record was found or the token has expired.
pub fn token_owner(stored: Option<(UserId, String)>, now: i128) -> (r: Result<
    Option<UserId>,
    StoredTimestampError,
>)
    ensures
        match stored {
            None => r == Ok::<Option<UserId>, StoredTimestampError>(None),
            Some((u, expires)) => match iso8601_nanos_of(expires@) {
                None => r == Err::<Option<UserId>, StoredTimestampError>(
                    StoredTimestampError::Invalid,
                ),
                Some(e) => r matches Ok(o) && (o is Some <==> now < e) && (o matches Some(v)
                    ==> v.0@ == u.0@),
            },
        },
{
    match stored {
        None => Ok(None),
        Some((user_id, expires)) => match parse_iso8601_nanos(&expires) {
            Ok(e) => Ok(owner_if_unexpired(user_id, e, now)),
            Err(_) => Err(StoredTimestampError::Invalid),
        },
    }
}

/// The digests of the stored tokens that have expired at `now`, in their
/// order; the stored expiries are ISO 8601 timestamps.
pub fn expired_token_hashes(rows: &Vec<(Vec<u8>, String)>, now: i128) -> (r: Result<
    Vec<Vec<u8>>,
    StoredTimestampError,
>)
    ensures
        r is Err <==> exists|i: int|
            0 <= i < rows.len() && (iso8601_nanos_of(#[trigger] rows@[i].1@) is None),
        r matches Ok(v) ==> v@.map_values(|h: Vec<u8>| h@) == rows@.filter(
            |row: (Vec<u8>, String)| iso8601_nanos_of(row.1@).unwrap() <= now,
        ).map_values(|row: (Vec<u8>, String)| row.0@),
{
    let mut out: Vec<Vec<u8>> = Vec::new();
    let mut i: usize = 0;
    while i < rows.len()
        invariant
            i <= rows.len(),
            forall|j: int| 0 <= j < i ==> (iso8601_nanos_of(#[trigger] rows@[j].1@) is Some),
            out@.map_values(|h: Vec<u8>| h@) == rows@.subrange(0, i as int).filter(
                |row: (Vec<u8>, String)| iso8601_nanos_of(row.1@).unwrap() <= now,
            ).map_values(|row: (Vec<u8>, String)| row.0@),
        decreases rows.len() - i,
    {
        let e = match parse_iso8601_nanos(&rows[i].1) {
            Ok(e) => e,
            Err(_) => return Err(StoredTimestampError::Invalid),
        };
        let ghost f = |row: (Vec<u8>, String)| iso8601_nanos_of(row.1@).unwrap() <= now;
        proof {
            let pre = rows@.subrange(0, i as int);
            assert(rows@.subrange(0, i as int + 1) =~= pre.push(rows@[i as int]));
            pre.lemma_filter_push(rows@[i as int], f);
        }
        if e <= now {
            let h = copy_bytes(&rows[i].0);
            let ghost before = out@;
            out.push(h);
            proof {
                assert(out@.map_values(|h: Vec<u8>| h@) =~= before.map_values(|h: Vec<u8>| h@).push(
                    h@,
                ));
            }
        }
        i += 1;
    }
    proof {
        assert(rows@.subrange(0, rows@.len() as int) =~= rows@);
    }
    Ok(out)
}

} // verus!
