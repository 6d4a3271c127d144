//! What the relay makes of a request before any tunnel begins: whether it
//! asks for a tunnel at all, and what is answered where it does not.

use crate::codec::{first_bad_digit, hex_decoding, hex_digit_value, hex_pair, HexError};
use crate::text::{digit, digit_char};
use vstd::prelude::*;
use vstd::string::{StringExecFns, StringSliceAdditionalSpecFns};

verus! {

/// What is done with a request.
#[derive(Clone, Copy, Debug, PartialEq, Eq, Structural)]
pub enum Route {
    /// Answer with the connection URI.
    ShowUri,
    /// Pass the request on to the fallback site.
    Forward,
    /// Accept the upgrade and run a tunnel.
    Tunnel,
}

/// The route of a request. A request that asks for no upgrade is answered
/// with the connection URI where that is switched on and the path names
/// the user; else it is passed on to the fallback site where one is
/// configured. Everything else is taken as a tunnel.
pub open spec fn route_of(
    upgrade: bool,
    show_uri: bool,
    path_names_user: bool,
    has_fallback: bool,
) -> Route {
    if !upgrade && show_uri && path_names_user {
        Route::ShowUri
    } else if !upgrade && has_fallback {
        Route::Forward
    } else {
        Route::Tunnel
    }
}

/// Decides what is done with a request.
pub fn route(upgrade: bool, show_uri: bool, path_names_user: bool, has_fallback: bool) -> (r: Route)
    ensures
        r == route_of(upgrade, show_uri, path_names_user, has_fallback),
{
    if !upgrade && show_uri && path_names_user {
        Route::ShowUri
    } else if !upgrade && has_fallback {
        Route::Forward
    } else {
        Route::Tunnel
    }
}

/// An ASCII letter in lower case; any other byte as it is.
pub open spec fn lower(b: u8) -> u8 {
    if 65 <= b <= 90 {
        (b + 32) as u8
    } else {
        b
    }
}

/// Whether two runs of bytes are the same but for the case of ASCII
/// letters.
pub open spec fn same_but_for_case(a: Seq<u8>, b: Seq<u8>) -> bool {
    &&& a.len() == b.len()
    &&& forall|i: int| 0 <= i < a.len() ==> lower(#[trigger] a[i]) == lower(b[i])
}

/// The token that an `Upgrade` header carries for a WebSocket:
/// `websocket`.
pub open spec fn websocket_token() -> Seq<u8> {
    seq![119u8, 101u8, 98u8, 115u8, 111u8, 99u8, 107u8, 101u8, 116u8]
}

/// An ASCII letter in lower case; any other byte as it is.
fn to_lower(b: u8) -> (l: u8)
    ensures
        l == lower(b),
{
    if 65 <= b && b <= 90 {
        b + 32
    } else {
        b
    }
}

/// Whether the value of an `Upgrade` header asks for a WebSocket: it is
/// there, and is `websocket` in any mix of upper and lower case.
pub fn is_websocket_upgrade(value: Option<&str>) -> (upgrade: bool)
    ensures
        upgrade == match value {
            Some(text) => same_but_for_case(text.spec_bytes(), websocket_token()),
            None => false,
        },
{
    let text = match value {
        Some(text) => text,
        None => {
            return false;
        },
    };
    let token: [u8; 9] = [119, 101, 98, 115, 111, 99, 107, 101, 116];
    assert(token@ =~= websocket_token());
    let bytes = text.as_bytes();
    if bytes.len() != 9 {
        return false;
    }
    let mut i: usize = 0;
    while i < 9
        invariant
            i <= 9,
            value == Some(text),
            bytes@.len() == 9,
            bytes@ == text.spec_bytes(),
            token@ == websocket_token(),
            forall|j: int| 0 <= j < i ==> lower(#[trigger] bytes@[j]) == lower(token@[j]),
        decreases 9 - i,
    {
        if to_lower(bytes[i]) != to_lower(token[i]) {
            assert(lower(text.spec_bytes()[i as int]) != lower(websocket_token()[i as int]));
            return false;
        }
        i = i + 1;
    }
    true
}

/// Whether a character is ASCII whitespace: a space, a tab, a line feed, a
/// form feed or a carriage return.
pub open spec fn is_space(c: char) -> bool {
    c == ' ' || c == '\t' || c == '\n' || c == '\x0C' || c == '\r'
}

/// The word that `text` ends in: its last characters back to the last
/// whitespace. Empty where `text` ends in whitespace.
pub open spec fn last_word(text: Seq<char>) -> Seq<char>
    decreases text.len(),
{
    if text.len() == 0 || is_space(text.last()) {
        Seq::<char>::empty()
    } else {
        last_word(text.drop_last()).push(text.last())
    }
}

/// The words of `text` that whitespace has ended, in order.
pub open spec fn ended_words(text: Seq<char>) -> Seq<Seq<char>>
    decreases text.len(),
{
    if text.len() == 0 {
        Seq::<Seq<char>>::empty()
    } else if is_space(text.last()) && last_word(text.drop_last()).len() > 0 {
        ended_words(text.drop_last()).push(last_word(text.drop_last()))
    } else {
        ended_words(text.drop_last())
    }
}

/// The words of `text`: its longest runs of characters that are no
/// whitespace, in order.
pub open spec fn words(text: Seq<char>) -> Seq<Seq<char>> {
    if last_word(text).len() > 0 {
        ended_words(text).push(last_word(text))
    } else {
        ended_words(text)
    }
}

/// What a list of strings holds, as contracts see it.
pub open spec fn texts(list: Seq<String>) -> Seq<Seq<char>> {
    Seq::new(list.len(), |i: int| list[i]@)
}

/// The hosts that a configuration value lists, separated by whitespace.
pub fn split_hosts(text: &str) -> (hosts: Vec<String>)
    ensures
        texts(hosts@) == words(text@),
{
    let mut hosts: Vec<String> = Vec::new();
    let mut word = String::new();
    assert(texts(hosts@) =~= ended_words(text@.take(0)));
    for c in it: text.chars()
        invariant
            it.seq() == text@,
            texts(hosts@) == ended_words(text@.take(it.index() as int)),
            word@ == last_word(text@.take(it.index() as int)),
    {
        proof {
            let k = it.index() as int;
            assert(text@.take(k + 1).drop_last() =~= text@.take(k));
            assert(text@.take(k + 1).last() == c);
        }
        if c == ' ' || c == '\t' || c == '\n' || c == '\x0C' || c == '\r' {
            if !word.as_str().is_empty() {
                let ghost before = texts(hosts@);
                let ghost ended = word@;
                hosts.push(word);
                assert(texts(hosts@) =~= before.push(ended));
                word = String::new();
            }
        } else {
            word.push(c);
        }
    }
    proof {
        assert(text@.take(text@.len() as int) =~= text@);
    }
    if !word.as_str().is_empty() {
        let ghost before = texts(hosts@);
        let ghost ended = word@;
        hosts.push(word);
        assert(texts(hosts@) =~= before.push(ended));
    }
    hosts
}

/// Bytes in hexadecimal: two digits for each byte, in lower case.
pub open spec fn hex_of(bytes: Seq<u8>) -> Seq<char>
    decreases bytes.len(),
{
    if bytes.len() == 0 {
        Seq::<char>::empty()
    } else {
        hex_of(bytes.drop_last()).push(digit_char((bytes.last() / 16) as nat)).push(
            digit_char((bytes.last() % 16) as nat),
        )
    }
}

/// Appends bytes in hexadecimal.
pub fn push_hex_of(out: &mut String, bytes: &[u8])
    ensures
        final(out)@ == old(out)@ + hex_of(bytes@),
{
    let ghost before = out@;
    let mut i: usize = 0;
    assert(out@ =~= before + hex_of(bytes@.take(0)));
    while i < bytes.len()
        invariant
            i <= bytes@.len(),
            out@ == before + hex_of(bytes@.take(i as int)),
        decreases bytes@.len() - i,
    {
        proof {
            assert(bytes@.take(i + 1).drop_last() =~= bytes@.take(i as int));
        }
        out.push(digit(bytes[i] / 16));
        out.push(digit(bytes[i] % 16));
        assert(out@ =~= before + hex_of(bytes@.take(i + 1)));
        i = i + 1;
    }
    proof {
        assert(bytes@.take(bytes@.len() as int) =~= bytes@);
    }
}

/// Whether `needle` stands somewhere in `hay`.
pub open spec fn occurs(hay: Seq<u8>, needle: Seq<u8>) -> bool {
    exists|at: int| occurs_at(hay, needle, at)
}

/// Whether `needle` stands in `hay` at index `at`.
pub open spec fn occurs_at(hay: Seq<u8>, needle: Seq<u8>, at: int) -> bool {
    &&& 0 <= at
    &&& at + needle.len() <= hay.len()
    &&& hay.subrange(at, at + needle.len()) == needle
}

/// Whether `needle` stands in `hay` at index `at`.
fn stands_at(hay: &[u8], needle: &[u8], at: usize) -> (b: bool)
    requires
        at + needle@.len() <= hay@.len(),
    ensures
        b == occurs_at(hay@, needle@, at as int),
{
    let ghost part = hay@.subrange(at as int, at + needle@.len());
    assert(hay.len() <= usize::MAX);
    let mut j: usize = 0;
    while j < needle.len()
        invariant
            j <= needle@.len(),
            at + needle@.len() <= hay@.len() <= usize::MAX,
            part == hay@.subrange(at as int, at + needle@.len()),
            forall|k: int| 0 <= k < j ==> part[k] == needle@[k],
        decreases needle@.len() - j,
    {
        if hay[at + j] != needle[j] {
            assert(part[j as int] != needle@[j as int]);
            return false;
        }
        j = j + 1;
    }
    assert(part =~= needle@);
    true
}

/// Whether `needle` stands somewhere in `hay`.
pub fn contains(hay: &[u8], needle: &[u8]) -> (found: bool)
    ensures
        found == occurs(hay@, needle@),
{
    if needle.len() > hay.len() {
        return false;
    }
    let last = hay.len() - needle.len();
    let mut at: usize = 0;
    loop
        invariant
            at <= last,
            last == hay@.len() - needle@.len(),
            forall|k: int| 0 <= k < at ==> !occurs_at(hay@, needle@, k),
        decreases last - at,
    {
        if stands_at(hay, needle, at) {
            return true;
        }
        if at == last {
            return false;
        }
        at = at + 1;
    }
}

/// Whether a request path names the user: the credential stands in it, in
/// hexadecimal.
pub fn path_names_user(path: &str, user_id: &[u8]) -> (named: bool)
    ensures
        named == occurs(path.spec_bytes(), hex_of(user_id@).map_values(|c: char| c as u8)),
{
    let mut id = String::new();
    push_hex_of(&mut id, user_id);
    assert(id@ =~= hex_of(user_id@));
    let id = id.as_str();
    proof {
        lemma_hex_is_ascii(user_id@);
        vstd::string::is_ascii_spec_bytes(id);
        assert(id.spec_bytes() =~= hex_of(user_id@).map_values(|c: char| c as u8));
    }
    contains(path.as_bytes(), id.as_bytes())
}

/// Hexadecimal digits are ASCII.
pub proof fn lemma_hex_is_ascii(bytes: Seq<u8>)
    ensures
        vstd::utf8::is_ascii_chars(hex_of(bytes)),
        hex_of(bytes).len() == 2 * bytes.len(),
    decreases bytes.len(),
{
    if bytes.len() > 0 {
        lemma_hex_is_ascii(bytes.drop_last());
    }
}

/// The connection URI for a relay that is reached at `host`.
pub open spec fn connection_uri_text(user_id: Seq<u8>, host: Seq<char>) -> Seq<char> {
    "vless://"@ + hex_of(user_id) + "@"@ + host + ":443?encryption=none&security=tls&sni="@ + host
        + "&fp=chrome&type=ws&host="@ + host + "&path=ws#workers-tunnel"@
}

/// The connection URI that tells a client how to reach this relay.
pub fn connection_uri(user_id: &[u8], host: &str) -> (uri: String)
    ensures
        uri@ == connection_uri_text(user_id@, host@),
{
    let mut uri = String::new();
    uri.append("vless://");
    push_hex_of(&mut uri, user_id);
    uri.append("@");
    uri.append(host);
    uri.append(":443?encryption=none&security=tls&sni=");
    uri.append(host);
    uri.append("&fp=chrome&type=ws&host=");
    uri.append(host);
    uri.append("&path=ws#workers-tunnel");
    assert(uri@ =~= connection_uri_text(user_id@, host@));
    uri
}

/// The two digits that `hex_of` writes for the byte at index `i`.
proof fn lemma_hex_of_digits(bytes: Seq<u8>, i: int)
    requires
        0 <= i < bytes.len(),
    ensures
        hex_of(bytes).len() == 2 * bytes.len(),
        hex_of(bytes)[2 * i] == digit_char((bytes[i] / 16) as nat),
        hex_of(bytes)[2 * i + 1] == digit_char((bytes[i] % 16) as nat),
    decreases bytes.len(),
{
    lemma_hex_is_ascii(bytes);
    lemma_hex_is_ascii(bytes.drop_last());
    if i < bytes.len() - 1 {
        lemma_hex_of_digits(bytes.drop_last(), i);
    }
}

/// Text that holds digits alone has no bad digit.
proof fn lemma_all_digits(text: Seq<u8>, from: int)
    requires
        0 <= from <= text.len(),
        forall|i: int| from <= i < text.len() ==> hex_digit_value(#[trigger] text[i]) is Some,
    ensures
        first_bad_digit(text, from) == text.len(),
    decreases text.len() - from,
{
    if from < text.len() {
        lemma_all_digits(text, from + 1);
    }
}

/// What is written in hexadecimal is read back: the credential that a
/// connection URI shows is the one that its hexadecimal form configures.
pub proof fn hex_is_read_back(bytes: Seq<u8>)
    ensures
        hex_decoding(hex_of(bytes).map_values(|c: char| c as u8)) == Ok::<Seq<u8>, HexError>(bytes),
{
    let text = hex_of(bytes).map_values(|c: char| c as u8);
    lemma_hex_is_ascii(bytes);
    assert forall|i: int| 0 <= i < bytes.len() implies {
        &&& hex_digit_value(#[trigger] text[2 * i]) == Some((bytes[i] / 16) as u8)
        &&& hex_digit_value(text[2 * i + 1]) == Some((bytes[i] % 16) as u8)
    } by {
        lemma_hex_of_digits(bytes, i);
    }
    assert forall|k: int| 0 <= k < text.len() implies hex_digit_value(#[trigger] text[k]) is Some by {
        let i = k / 2;
        assert(k == 2 * i || k == 2 * i + 1);
        assert(hex_digit_value(text[2 * i]) is Some);
    }
    lemma_all_digits(text, 0);
    let decoded = Seq::new(text.len() / 2, |i: int| hex_pair(text, i));
    assert forall|i: int| 0 <= i < bytes.len() implies decoded[i] == bytes[i] by {
        assert(hex_digit_value(text[2 * i]) == Some((bytes[i] / 16) as u8));
    }
    assert(decoded =~= bytes);
}

} // verus!
