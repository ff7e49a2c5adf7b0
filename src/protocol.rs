use vstd::prelude::*;
use vstd::utf8::{decode_utf8, valid_utf8};

use crate::decimal::{
    i32_of, int_text, is_digit, lemma_i32_text_round_trip, lemma_nat_text_digits, nat_text,
    parse_i32_text, push_int_text,
};
use crate::error::HandshakeError;
use crate::text::{
    end_without_nul, end_without_ws, is_ws, lemma_tokens_append_word, lemma_tokens_append_ws,
    no_ws, start_without_ws, token_spans, tokens, trim_end_nul, trim_ws,
};

verus! {

/// Seconds that a whole server-side session may take where each session has a deadline.
pub const CONNECTION_TIMEOUT_SECS: u64 = 30;

/// Seconds that one read may wait before it fails.
pub const READ_TIMEOUT_SECS: u64 = 5;

/// Seconds that a whole client-side session may take where each session has a deadline.
pub const CLIENT_CONNECTION_TIMEOUT_SECS: u64 = 10;

/// The keyword that opens every message.
pub open spec fn hello_word() -> Seq<char> {
    seq!['H', 'E', 'L', 'L', 'O']
}

/// The text of the message that carries `n`: `HELLO`, one space, `n` in decimal.
pub open spec fn hello_text(n: i32) -> Seq<char> {
    hello_word() + seq![' '] + int_text(n as int)
}

/// `s` is two white-space-separated tokens of which the first is `HELLO`.
pub open spec fn hello_shape(s: Seq<char>) -> bool {
    tokens(s).len() == 2 && tokens(s)[0] == hello_word()
}

/// The sequence number that the message `s` carries, if it is well formed.
pub open spec fn hello_value(s: Seq<char>) -> Option<i32> {
    if hello_shape(s) {
        i32_of(tokens(s)[1])
    } else {
        None
    }
}

/// The sequence number that follows `n`; after `i32::MAX` comes `i32::MIN`.
pub open spec fn next_seq(n: i32) -> i32 {
    if n == i32::MAX {
        i32::MIN
    } else {
        (n + 1) as i32
    }
}

/// Parsing the text of a message gives back the number that it was made from.
pub proof fn lemma_hello_round_trip(n: i32)
    ensures
        hello_shape(hello_text(n)),
        hello_value(hello_text(n)) == Some(n),
{
    let w = hello_word();
    let d = int_text(n as int);
    lemma_i32_text_round_trip(n);
    assert(no_ws(w));
    lemma_tokens_append_word(Seq::empty(), w);
    assert(Seq::<char>::empty() + w =~= w);
    lemma_tokens_append_ws(w, ' ');
    assert(w.push(' ') =~= w + seq![' ']);
    assert(no_ws(d)) by {
        assert forall|i: int| 0 <= i < d.len() implies !is_ws(#[trigger] d[i]) by {
            if n < 0 && i == 0 {
            } else {
                assert(is_digit(d[i])) by {
                    lemma_text_digits(n, i);
                }
            }
        }
    }
    lemma_tokens_append_word(w + seq![' '], d);
    assert(tokens(Seq::<char>::empty()) =~= Seq::<Seq<char>>::empty());
    assert(tokens(hello_text(n)) =~= seq![w, d]);
}

/// Past its sign, the decimal text of `n` is all digits.
proof fn lemma_text_digits(n: i32, i: int)
    requires
        0 <= i < int_text(n as int).len(),
        !(n < 0 && i == 0),
    ensures
        is_digit(int_text(n as int)[i]),
{
    if n < 0 {
        lemma_nat_text_digits((-n) as nat);
        assert(int_text(n as int)[i] == nat_text((-n) as nat)[i - 1]);
    } else {
        lemma_nat_text_digits(n as nat);
    }
}

/// `e` is the error that parsing the text `s` as a message reports.
pub open spec fn parse_error_of(e: HandshakeError, s: Seq<char>) -> bool {
    match e {
        HandshakeError::InvalidMessageFormat { message } => !hello_shape(s) && message@ == s,
        HandshakeError::InvalidSequenceNumber(t) => hello_shape(s) && hello_value(s) is None
            && t@ == tokens(s)[1],
        _ => false,
    }
}

/// Reads the sequence number out of a `HELLO <number>` message.
pub fn parse_hello_message(message: &str) -> (r: Result<i32, HandshakeError>)
    ensures
        match r {
            Ok(v) => hello_value(message@) == Some(v),
            Err(e) => parse_error_of(e, message@),
        },
{
    let spans = token_spans(message);
    let mut shaped = spans.len() == 2;
    if shaped {
        let (b, e) = spans[0];
        shaped = e - b == 5 && message.get_char(b) == 'H' && message.get_char(b + 1) == 'E'
            && message.get_char(b + 2) == 'L' && message.get_char(b + 3) == 'L'
            && message.get_char(b + 4) == 'O';
        assert(shaped <==> message@.subrange(b as int, e as int) =~= hello_word());
    }
    if !shaped {
        return Err(HandshakeError::InvalidMessageFormat { message: String::from_str(message) });
    }
    let (b, e) = spans[1];
    let token = message.substring_char(b, e);
    match parse_i32_text(token) {
        Some(v) => Ok(v),
        None => Err(HandshakeError::InvalidSequenceNumber(String::from_str(token))),
    }
}

/// Writes the message `HELLO <seq_num>`.
pub fn format_hello_message(seq_num: i32) -> (r: String)
    ensures
        r@ == hello_text(seq_num),
{
    proof {
        reveal_strlit("HELLO ");
    }
    let mut s = String::from_str("HELLO ");
    push_int_text(&mut s, seq_num);
    assert(s@ =~= hello_text(seq_num));
    s
}

/// What a byte string reads as once each invalid UTF-8 sequence in it is replaced
/// by U+FFFD.
pub uninterp spec fn utf8_lossy(b: Seq<u8>) -> Seq<char>;

/// Relies on `String::from_utf8_lossy`: invalid sequences become U+FFFD, and valid
/// UTF-8 is decoded as it stands.
#[verifier::external_body]
fn decode_lossy(b: &[u8]) -> (r: String)
    ensures
        r@ == utf8_lossy(b@),
        valid_utf8(b@) ==> r@ == decode_utf8(b@),
{
    String::from_utf8_lossy(b).into_owned()
}

/// The text of one frame as a blocking read delivers it: `received` holds the
/// bytes of the read; none means that the peer closed the connection.  Trailing
/// NUL characters are dropped.
pub fn frame_text(received: &[u8]) -> (r: Result<String, HandshakeError>)
    ensures
        match r {
            Ok(t) => received@.len() > 0 && t@ == trim_end_nul(utf8_lossy(received@)),
            Err(e) => received@.len() == 0 && e == HandshakeError::ClientDisconnected,
        },
{
    if received.len() == 0 {
        return Err(HandshakeError::ClientDisconnected);
    }
    let text = decode_lossy(received);
    let e = end_without_nul(text.as_str());
    Ok(String::from_str(text.as_str().substring_char(0, e)))
}

/// The text of one frame as a read with a deadline delivers it: as
/// [`frame_text`], and white space is dropped at both ends as well.
pub fn frame_text_trimmed(received: &[u8]) -> (r: Result<String, HandshakeError>)
    ensures
        match r {
            Ok(t) => received@.len() > 0 && t@ == trim_ws(trim_end_nul(utf8_lossy(received@))),
            Err(e) => received@.len() == 0 && e == HandshakeError::ClientDisconnected,
        },
{
    match frame_text(received) {
        Ok(text) => {
            let s = text.as_str();
            let e = end_without_ws(s);
            let trimmed = s.substring_char(0, e);
            assert(trimmed@.subrange(0, e as int) =~= trimmed@);
            let b = start_without_ws(trimmed, e);
            Ok(String::from_str(trimmed.substring_char(b, e)))
        },
        Err(e) => Err(e),
    }
}

} // verus!
