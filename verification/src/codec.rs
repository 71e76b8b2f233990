//! Channel-key codec.
//!
//! A live-wait session is identified by a (client, optional secret) pair.
//! The codec maps such a pair to a single wire-safe token that serves both as
//! the database notification payload and as the registry key, and maps the
//! token back to the pair.  Client and secret are ASCII alphanumeric (see
//! `ids`), so joining them with a space — a character excluded from that
//! alphabet — gives an injective encoding: `lemma_codec_round_trip` and
//! `lemma_encode_injective` below state this exactly.

use vstd::prelude::*;

use crate::ids::all_alphanumeric;
use crate::ids::is_ascii_alphanumeric_char;
use vstd::string::StringExecFns;

verus! {

/// The view of an optional secret: the view of its string, if present.
pub open spec fn view_secret(secret: Option<String>) -> Option<Seq<char>> {
    match secret {
        Some(s) => Some(s@),
        None => None,
    }
}

/// The character sequence a secret contributes to an encoding: empty when absent.
pub open spec fn secret_seq(secret: Option<Seq<char>>) -> Seq<char> {
    match secret {
        Some(s) => s,
        None => Seq::empty(),
    }
}

/// Validity precondition of the codec: both parts are ASCII alphanumeric and
/// an explicitly supplied secret is non-empty (callers pass an empty secret
/// as `None`).
pub open spec fn valid_pair(client: Seq<char>, secret: Option<Seq<char>>) -> bool {
    &&& all_alphanumeric(client)
    &&& match secret {
        Some(s) => all_alphanumeric(s) && s.len() > 0,
        None => true,
    }
}

/// The token that encodes a (client, secret) pair: the two parts joined by a
/// single space, with an absent secret contributing nothing after the space.
pub open spec fn encoded_payload(client: Seq<char>, secret: Option<Seq<char>>) -> Seq<char> {
    client + seq![' '] + secret_seq(secret)
}

/// Some character of `p` is a space.
pub open spec fn has_space(p: Seq<char>) -> bool {
    exists|i: int| 0 <= i < p.len() && p[i] == ' '
}

/// `(c, s)` is the decoding of `p` split at indices `i` and `e`: `i` is the
/// first space, `c` is everything before it, and `s` is the token between
/// that space and the next one (or the end) — possibly empty, but present
/// whenever the separator is.
pub open spec fn splits_at(p: Seq<char>, i: int, e: int, c: Seq<char>, s: Option<Seq<char>>) -> bool {
    &&& 0 <= i < p.len()
    &&& p[i] == ' '
    &&& (forall|j: int| 0 <= j < i ==> p[j] != ' ')
    &&& i < e <= p.len()
    &&& (forall|j: int| i < j < e ==> p[j] != ' ')
    &&& (e == p.len() || p[e] == ' ')
    &&& c == p.subrange(0, i)
    &&& s == Some(p.subrange(i + 1, e))
}

/// `(c, s)` is the decoding of the token `p`: the client is everything
/// before the first space and the secret is the following space-separated
/// token; a token without any space is all client and no secret.
pub open spec fn decoded_ok(p: Seq<char>, c: Seq<char>, s: Option<Seq<char>>) -> bool {
    if has_space(p) {
        exists|i: int, e: int| splits_at(p, i, e, c, s)
    } else {
        c == p && s is None
    }
}

/// Encode a (client, secret) pair as the notification payload token.
pub fn encode_notify_payload(client: &str, secret: &Option<String>) -> (r: String)
    requires
        valid_pair(client@, view_secret(*secret)),
    ensures
        r@ == encoded_payload(client@, view_secret(*secret)),
{
    let mut r = client.to_owned();
    r.append(" ");
    proof {
        reveal_strlit(" ");
        assert(" "@ =~= seq![' ']);
    }
    match secret {
        Some(s) => {
            r.append(s.as_str());
        },
        None => {},
    }
    proof {
        assert(r@ =~= encoded_payload(client@, view_secret(*secret)));
    }
    r
}

/// Index of the first space of `s`, if any.
fn find_space(s: &str) -> (r: Option<usize>)
    ensures
        match r {
            Some(i) => i < s@.len() && s@[i as int] == ' ' && (forall|j: int|
                0 <= j < i ==> s@[j] != ' '),
            None => !has_space(s@),
        },
{
    let len = s.unicode_len();
    let mut i: usize = 0;
    while i < len
        invariant
            i <= len,
            len == s@.len(),
            forall|j: int| 0 <= j < i ==> s@[j] != ' ',
        decreases len - i,
    {
        if s.get_char(i) == ' ' {
            return Some(i);
        }
        i += 1;
    }
    None
}

/// Decode a payload token back into its (client, secret) pair.  The secret
/// is the second space-separated token, present — possibly empty — whenever
/// the token holds a space at all.
pub fn decode_notify_payload(payload: &str) -> (r: (String, Option<String>))
    ensures
        decoded_ok(payload@, r.0@, view_secret(r.1)),
{
    match find_space(payload) {
        None => (payload.to_owned(), None),
        Some(i) => {
            let len = payload.unicode_len();
            let client = payload.substring_char(0, i).to_owned();
            let rest = payload.substring_char(i + 1, len);
            let token_end = match find_space(rest) {
                Some(j) => j,
                None => rest.unicode_len(),
            };
            let secret = rest.substring_char(0, token_end).to_owned();
            proof {
                let e = i + 1 + token_end;
                assert(rest@ == payload@.subrange(i + 1 as int, len as int));
                assert forall|j: int| i < j < e implies payload@[j] != ' ' by {
                    assert(payload@[j] == rest@[j - i - 1]);
                }
                assert(secret@ =~= payload@.subrange(i + 1 as int, e as int));
                assert(splits_at(
                    payload@,
                    i as int,
                    e as int,
                    client@,
                    view_secret(Some(secret)),
                ));
            }
            (client, Some(secret))
        },
    }
}

/// The database channel name for a (client, secret-or-empty) pair.
pub open spec fn channel_name_seq(client: Seq<char>, secret: Seq<char>) -> Seq<char> {
    "geohubclient_update_"@ + client + "_"@ + secret
}

/// Build a channel name from a client name and secret.
pub fn channel_name(client: &str, secret: &str) -> (r: String)
    requires
        forall|i: int| 0 <= i < client@.len() ==> client@[i] != ' ',
        forall|i: int| 0 <= i < secret@.len() ==> secret@[i] != ' ',
    ensures
        r@ == channel_name_seq(client@, secret@),
{
    let mut r = "geohubclient_update_".to_owned();
    r.append(client);
    r.append("_");
    r.append(secret);
    proof {
        assert(r@ =~= channel_name_seq(client@, secret@));
    }
    r
}

/// Compare two tokens character by character.
pub fn str_eq(a: &str, b: &str) -> (r: bool)
    ensures
        r == (a@ == b@),
{
    let la = a.unicode_len();
    let lb = b.unicode_len();
    if la != lb {
        return false;
    }
    let mut i: usize = 0;
    while i < la
        invariant
            i <= la,
            la == a@.len(),
            la == b@.len(),
            forall|j: int| 0 <= j < i ==> a@[j] == b@[j],
        decreases la - i,
    {
        if a.get_char(i) != b.get_char(i) {
            return false;
        }
        i += 1;
    }
    proof {
        assert(a@ =~= b@);
    }
    true
}

/// An alphanumeric character is never the separator.
pub proof fn lemma_alphanumeric_is_not_space(s: Seq<char>)
    requires
        all_alphanumeric(s),
    ensures
        forall|i: int| 0 <= i < s.len() ==> s[i] != ' ',
{
    assert forall|i: int| 0 <= i < s.len() implies s[i] != ' ' by {
        assert(is_ascii_alphanumeric_char(s[i]));
    }
}

/// An alphanumeric character is never the channel-name separator.
pub proof fn lemma_alphanumeric_is_not_underscore(s: Seq<char>)
    requires
        all_alphanumeric(s),
    ensures
        forall|i: int| 0 <= i < s.len() ==> s[i] != '_',
{
    assert forall|i: int| 0 <= i < s.len() implies s[i] != '_' by {
        assert(is_ascii_alphanumeric_char(s[i]));
    }
}

/// Channel names are injective: distinct validated sessions listen on
/// distinct database channels, and no client/secret pair can reproduce the
/// prefix-and-separator grammar of another session's channel.
pub proof fn lemma_channel_name_injective(
    c1: Seq<char>,
    s1: Seq<char>,
    c2: Seq<char>,
    s2: Seq<char>,
)
    requires
        all_alphanumeric(c1),
        all_alphanumeric(s1),
        all_alphanumeric(c2),
        all_alphanumeric(s2),
        channel_name_seq(c1, s1) == channel_name_seq(c2, s2),
    ensures
        c1 == c2,
        s1 == s2,
{
    reveal_strlit("geohubclient_update_");
    reveal_strlit("_");
    let p = "geohubclient_update_"@;
    let n = p.len() as int;
    let t1 = channel_name_seq(c1, s1);
    let t2 = channel_name_seq(c2, s2);
    lemma_alphanumeric_is_not_underscore(c1);
    lemma_alphanumeric_is_not_underscore(c2);
    assert(t1[n + c1.len()] == '_');
    assert(t2[n + c2.len()] == '_');
    // The first separator past the prefix sits right after the client part,
    // so equal channel names force equal client lengths.
    if c1.len() < c2.len() {
        assert(t2[n + c1.len()] == c2[c1.len() as int]);
        assert(false);
    }
    if c2.len() < c1.len() {
        assert(t1[n + c2.len()] == c1[c2.len() as int]);
        assert(false);
    }
    assert forall|i: int| 0 <= i < c1.len() implies c1[i] == c2[i] by {
        assert(t1[n + i] == c1[i]);
        assert(t2[n + i] == c2[i]);
    }
    assert(c1 =~= c2);
    assert(t1.len() == n + c1.len() + 1 + s1.len());
    assert(t2.len() == n + c2.len() + 1 + s2.len());
    assert(s1.len() == s2.len());
    assert forall|i: int| 0 <= i < s1.len() implies s1[i] == s2[i] by {
        assert(t1[n + c1.len() + 1 + i] == s1[i]);
        assert(t2[n + c2.len() + 1 + i] == s2[i]);
    }
    assert(s1 =~= s2);
}

/// A valid pair decodes from its own encoding: the client comes back as it
/// was, and the secret comes back as its character sequence — the empty one
/// when it was absent.
pub proof fn lemma_encode_decodes(client: Seq<char>, secret: Option<Seq<char>>)
    requires
        valid_pair(client, secret),
    ensures
        decoded_ok(encoded_payload(client, secret), client, Some(secret_seq(secret))),
{
    let p = encoded_payload(client, secret);
    let i = client.len() as int;
    let e = p.len() as int;
    lemma_alphanumeric_is_not_space(client);
    lemma_alphanumeric_is_not_space(secret_seq(secret));
    assert(p[i] == ' ');
    assert(has_space(p));
    assert(client == p.subrange(0, i)) by {
        assert(client =~= p.subrange(0, i));
    }
    assert forall|j: int| i < j < e implies p[j] != ' ' by {
        assert(p[j] == secret_seq(secret)[j - i - 1]);
    }
    assert(p.subrange(i + 1, e) =~= secret_seq(secret));
    assert(splits_at(p, i, e, client, Some(secret_seq(secret))));
}

/// Codec round trip: any decoding of the encoding of a valid (client,
/// secret) pair gives back the client exactly and the secret character for
/// character; a supplied secret reads back as itself, and an absent secret
/// reads back as the empty one — absent and empty name the same session.
pub proof fn lemma_codec_round_trip(
    client: Seq<char>,
    secret: Option<Seq<char>>,
    c2: Seq<char>,
    s2: Option<Seq<char>>,
)
    requires
        valid_pair(client, secret),
        decoded_ok(encoded_payload(client, secret), c2, s2),
    ensures
        c2 == client,
        secret_seq(s2) == secret_seq(secret),
        secret is Some ==> s2 == secret,
{
    let p = encoded_payload(client, secret);
    lemma_alphanumeric_is_not_space(client);
    lemma_alphanumeric_is_not_space(secret_seq(secret));
    assert(p[client.len() as int] == ' ');
    assert(has_space(p));
    let (i, e) = choose|i: int, e: int| splits_at(p, i, e, c2, s2);
    assert(splits_at(p, i, e, c2, s2));
    // The first space of the encoding sits exactly after the client part.
    assert(i == client.len()) by {
        if i < client.len() {
            assert(p[i] == client[i]);
            assert(is_ascii_alphanumeric_char(client[i]));
        }
        if i > client.len() {
            assert(p[client.len() as int] == ' ');
        }
    }
    assert(c2 =~= client);
    // The secret part holds no further space, so the second token runs to
    // the end of the payload.
    assert(e == p.len()) by {
        if e < p.len() {
            assert(p[e] == secret_seq(secret)[e - i - 1]);
        }
    }
    assert(p.subrange(i + 1, e) =~= secret_seq(secret));
}

/// The encoding is injective: distinct valid pairs never share a token, so
/// a key can never stand for two sessions.
pub proof fn lemma_encode_injective(
    c1: Seq<char>,
    s1: Option<Seq<char>>,
    c2: Seq<char>,
    s2: Option<Seq<char>>,
)
    requires
        valid_pair(c1, s1),
        valid_pair(c2, s2),
        encoded_payload(c1, s1) == encoded_payload(c2, s2),
    ensures
        c1 == c2,
        s1 == s2,
{
    lemma_encode_decodes(c1, s1);
    lemma_codec_round_trip(c2, s2, c1, Some(secret_seq(s1)));
    // Character-level equality and the non-empty demand on supplied secrets
    // rule out one side being absent while the other is present.
    match (s1, s2) {
        (Some(x), None) => {
            assert(x.len() > 0);
            assert(secret_seq(s1) == x);
            assert(false);
        },
        (None, Some(y)) => {
            assert(y.len() > 0);
            assert(false);
        },
        _ => {},
    }
}

} // verus!
