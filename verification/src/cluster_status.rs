//! Probing the status of a worker cluster: the URL its status is served at,
//! and what a reply to the status request yields.
use vstd::prelude::*;
use vstd::string::*;
use vstd::utf8::{decode_utf8, valid_utf8};

use crate::worker_registration::{Ip, IpView};

verus! {

/// The decimal digit `d`.
pub open spec fn digit_char(d: nat) -> char {
    if d == 0 {
        '0'
    } else if d == 1 {
        '1'
    } else if d == 2 {
        '2'
    } else if d == 3 {
        '3'
    } else if d == 4 {
        '4'
    } else if d == 5 {
        '5'
    } else if d == 6 {
        '6'
    } else if d == 7 {
        '7'
    } else if d == 8 {
        '8'
    } else {
        '9'
    }
}

/// The decimal notation of `n`, without leading zeros.
pub open spec fn decimal(n: nat) -> Seq<char>
    decreases n,
{
    if n < 10 {
        seq![digit_char(n)]
    } else {
        decimal(n / 10).push(digit_char(n % 10))
    }
}

/// The numbers of `parts` in decimal, separated by `sep`.
pub open spec fn joined(parts: Seq<u32>, sep: char) -> Seq<char>
    decreases parts.len(),
{
    if parts.len() == 0 {
        Seq::empty()
    } else if parts.len() == 1 {
        decimal(parts[0] as nat)
    } else {
        joined(parts.drop_last(), sep).push(sep) + decimal(parts.last() as nat)
    }
}

/// The host part of a cluster's status URL: the IPv4 parts joined by `.`,
/// else the IPv6 parts joined by `:`, else `localhost`.
pub open spec fn host_text(ip: IpView) -> Seq<char> {
    match ip.ipv4 {
        Some(parts) => joined(parts, '.'),
        None => match ip.ipv6 {
            Some(parts) => joined(parts, ':'),
            None => seq!['l', 'o', 'c', 'a', 'l', 'h', 'o', 's', 't'],
        },
    }
}

/// `http://{host}:{port}/status`.
pub open spec fn status_url(ip: IpView, port: u32) -> Seq<char> {
    seq!['h', 't', 't', 'p', ':', '/', '/'] + host_text(ip) + seq![':'] + decimal(port as nat)
        + seq!['/', 's', 't', 'a', 't', 'u', 's']
}

/// The one-character text of the digit `d`.
fn digit_str(d: u32) -> (s: &'static str)
    requires
        d < 10,
    ensures
        s@ == seq![digit_char(d as nat)],
{
    proof {
        reveal_strlit("0");
        reveal_strlit("1");
        reveal_strlit("2");
        reveal_strlit("3");
        reveal_strlit("4");
        reveal_strlit("5");
        reveal_strlit("6");
        reveal_strlit("7");
        reveal_strlit("8");
        reveal_strlit("9");
    }
    if d == 0 {
        "0"
    } else if d == 1 {
        "1"
    } else if d == 2 {
        "2"
    } else if d == 3 {
        "3"
    } else if d == 4 {
        "4"
    } else if d == 5 {
        "5"
    } else if d == 6 {
        "6"
    } else if d == 7 {
        "7"
    } else if d == 8 {
        "8"
    } else {
        "9"
    }
}

/// Appends `n` in decimal to `s`.
fn push_decimal(s: &mut String, n: u32)
    ensures
        final(s)@ == old(s)@ + decimal(n as nat),
    decreases n,
{
    if n >= 10 {
        push_decimal(s, n / 10);
    }
    s.append(digit_str(n % 10));
    assert(final(s)@ =~= old(s)@ + decimal(n as nat));
}

/// Appends the numbers of `parts` in decimal, separated by `sep`, to `s`.
fn push_joined(s: &mut String, parts: &Vec<u32>, sep: &str)
    requires
        sep@.len() == 1,
    ensures
        final(s)@ == old(s)@ + joined(parts@, sep@[0]),
{
    let ghost start = s@;
    let mut i: usize = 0;
    while i < parts.len()
        invariant
            i <= parts.len(),
            sep@.len() == 1,
            s@ == start + joined(parts@.take(i as int), sep@[0]),
        decreases parts.len() - i,
    {
        let ghost before = s@;
        if i > 0 {
            s.append(sep);
        }
        push_decimal(s, parts[i]);
        proof {
            let t = parts@.take(i + 1);
            assert(t.drop_last() =~= parts@.take(i as int));
            assert(t.last() == parts@[i as int]);
            if i == 0 {
                assert(joined(parts@.take(i as int), sep@[0]) =~= Seq::<char>::empty());
                assert(s@ =~= start + joined(t, sep@[0]));
            } else {
                assert(s@ =~= start + joined(t, sep@[0]));
            }
        }
        i = i + 1;
    }
    assert(parts@.take(parts.len() as int) =~= parts@);
}

/// The URL at which a cluster with address `ip` serves its status on `port`:
/// `http://{host}:{port}/status`.
pub fn cluster_status_url(ip: &Ip, port: u32) -> (url: String)
    ensures
        ip@.ipv4 matches Some(p) ==> url@ == seq!['h', 't', 't', 'p', ':', '/', '/'] + joined(p, '.') + seq![':']
            + decimal(port as nat) + seq!['/', 's', 't', 'a', 't', 'u', 's'],
        ip@.ipv4 is None && ip@.ipv6 is Some ==> url@ == seq!['h', 't', 't', 'p', ':', '/', '/'] + joined(
            ip@.ipv6->0,
            ':',
        ) + seq![':'] + decimal(port as nat) + seq!['/', 's', 't', 'a', 't', 'u', 's'],
        ip@.ipv4 is None && ip@.ipv6 is None ==> url@ == seq!['h', 't', 't', 'p', ':', '/', '/'] + seq![
            'l', 'o', 'c', 'a', 'l', 'h', 'o', 's', 't',
        ] + seq![':'] + decimal(port as nat) + seq!['/', 's', 't', 'a', 't', 'u', 's'],
        url@ == status_url(ip@, port),
{
    proof {
        reveal_strlit("http://");
        reveal_strlit(":");
        reveal_strlit(".");
        reveal_strlit("/status");
        reveal_strlit("localhost");
    }
    let mut url = String::from_str("http://");
    match &ip.ipv4 {
        Some(parts) => push_joined(&mut url, parts, "."),
        None => match &ip.ipv6 {
            Some(parts) => push_joined(&mut url, parts, ":"),
            None => url.append("localhost"),
        },
    }
    url.append(":");
    push_decimal(&mut url, port);
    url.append("/status");
    assert(url@ =~= status_url(ip@, port));
    url
}

/// Errors of an HTTP request made by the off-chain worker.
#[derive(Clone, Copy, Debug, PartialEq, Eq)]
pub enum HttpError {
    /// Deadline has been reached.
    DeadlineReached,
    /// Request had timed out.
    IoError,
    /// Unknown error has been encountered.
    Unknown,
}

/// How the status request ended.
pub enum HttpReply {
    /// The request could not be sent.
    SendFailed,
    /// Waiting for the response failed: the deadline passed.
    WaitFailed,
    /// The request itself failed with this error.
    Failed(HttpError),
    /// A response arrived with this status code and body.
    Received { code: u16, body: Vec<u8> },
}

/// Decodes UTF-8 bytes with `String::from_utf8` of std, which accepts
/// exactly the valid UTF-8 sequences.
#[verifier::external_body]
fn utf8_string(bytes: Vec<u8>) -> (s: Option<String>)
    ensures
        s is Some <==> valid_utf8(bytes@),
        s matches Some(text) ==> text@ == decode_utf8(bytes@),
{
    String::from_utf8(bytes).ok()
}

/// The status a cluster reported, from the reply to the status request:
/// a failure to send is an I/O error, a failed wait a passed deadline; a
/// response counts only with code 200 and a non-empty UTF-8 body.
pub fn cluster_status(reply: HttpReply) -> (res: Result<String, HttpError>)
    ensures
        match reply {
            HttpReply::SendFailed => res == Err::<String, HttpError>(HttpError::IoError),
            HttpReply::WaitFailed => res == Err::<String, HttpError>(HttpError::DeadlineReached),
            HttpReply::Failed(e) => res == Err::<String, HttpError>(e),
            HttpReply::Received { code, body } => if code == 200 && valid_utf8(body@) && body@.len() > 0 {
                res matches Ok(text) && text@ == decode_utf8(body@)
            } else {
                res == Err::<String, HttpError>(HttpError::Unknown)
            },
        },
{
    match reply {
        HttpReply::SendFailed => Err(HttpError::IoError),
        HttpReply::WaitFailed => Err(HttpError::DeadlineReached),
        HttpReply::Failed(e) => Err(e),
        HttpReply::Received { code, body } => {
            if code != 200 {
                return Err(HttpError::Unknown);
            }
            let empty = body.len() == 0;
            match utf8_string(body) {
                None => Err(HttpError::Unknown),
                Some(text) => {
                    if empty {
                        Err(HttpError::Unknown)
                    } else {
                        Ok(text)
                    }
                },
            }
        },
    }
}

/// The number a sequence of decimal digits stands for.
pub open spec fn digits_value(digits: Seq<char>) -> int
    decreases digits.len(),
{
    if digits.len() == 0 {
        0
    } else {
        digits_value(digits.drop_last()) * 10 + (digits.last() as int - '0' as int)
    }
}

/// `decimal(n)` is the decimal notation of `n`: a non-empty sequence of
/// digits that stands for `n`, with no leading zero.
pub proof fn lemma_decimal_is_notation(n: nat)
    ensures
        decimal(n).len() >= 1,
        forall|i: int| 0 <= i < decimal(n).len() ==> '0' <= #[trigger] decimal(n)[i] <= '9',
        digits_value(decimal(n)) == n,
        n > 0 ==> decimal(n)[0] != '0',
        n == 0 ==> decimal(n) == seq!['0'],
    decreases n,
{
    if n >= 10 {
        lemma_decimal_is_notation(n / 10);
        let d = decimal(n);
        assert(d.drop_last() =~= decimal(n / 10));
        assert(n == (n / 10) * 10 + n % 10);
        lemma_digit_char_value(n % 10);
        assert(d.last() == digit_char(n % 10));
        assert(digits_value(d) == digits_value(d.drop_last()) * 10 + (d.last() as int - '0' as int));
        assert(d.len() >= 2);
        assert(d[0] == decimal(n / 10)[0]);
        assert forall|i: int| 0 <= i < d.len() implies '0' <= #[trigger] d[i] <= '9' by {
            if i < d.len() - 1 {
                assert(d[i] == decimal(n / 10)[i]);
            }
        }
    } else {
        lemma_digit_char_value(n);
        let d = decimal(n);
        assert(d.drop_last() =~= Seq::<char>::empty());
        assert(digits_value(d) == digits_value(d.drop_last()) * 10 + (d.last() as int - '0' as int));
    }
}

proof fn lemma_digit_char_value(d: nat)
    requires
        d < 10,
    ensures
        digit_char(d) as int - '0' as int == d,
        '0' <= digit_char(d) <= '9',
{
    assert('0' as int == 48 && '1' as int == 49 && '2' as int == 50 && '3' as int == 51 && '4' as int == 52);
    assert('5' as int == 53 && '6' as int == 54 && '7' as int == 55 && '8' as int == 56 && '9' as int == 57);
}

/// The URL's host is the IPv4 parts joined by `.` whenever an IPv4 address
/// is given, whatever the IPv6 address; the IPv6 parts joined by `:` when
/// only that is given; and `localhost` otherwise.
pub proof fn lemma_status_url_host(ip: IpView, port: u32)
    ensures
        ip.ipv4 is Some ==> status_url(ip, port) == seq!['h', 't', 't', 'p', ':', '/', '/'] + joined(
            ip.ipv4->0,
            '.',
        ) + seq![':'] + decimal(port as nat) + seq!['/', 's', 't', 'a', 't', 'u', 's'],
        ip.ipv4 is None && ip.ipv6 is Some ==> status_url(ip, port) == seq!['h', 't', 't', 'p', ':', '/', '/']
            + joined(ip.ipv6->0, ':') + seq![':'] + decimal(port as nat) + seq!['/', 's', 't', 'a', 't', 'u', 's'],
        ip.ipv4 is None && ip.ipv6 is None ==> status_url(ip, port) == seq!['h', 't', 't', 'p', ':', '/', '/']
            + seq!['l', 'o', 'c', 'a', 'l', 'h', 'o', 's', 't'] + seq![':'] + decimal(port as nat) + seq![
            '/', 's', 't', 'a', 't', 'u', 's',
        ],
{
}

/// Joining puts the numbers in order, each in decimal, with one separator
/// between neighbours: no numbers give nothing, one number gives its
/// decimal, and one more number adds the separator and its decimal at the
/// end.
pub proof fn lemma_joined_shape(parts: Seq<u32>, x: u32, sep: char)
    ensures
        joined(Seq::empty(), sep) == Seq::<char>::empty(),
        joined(seq![x], sep) == decimal(x as nat),
        parts.len() > 0 ==> joined(parts.push(x), sep) == joined(parts, sep).push(sep) + decimal(x as nat),
{
    assert(seq![x].len() == 1);
    assert(parts.push(x).drop_last() =~= parts);
}

} // verus!
