//! Protocol hints, the port table, and resolution of a hint against a port.

use vstd::prelude::*;
use crate::text::{lower_of, lowercase, str_eq};

verus! {

/// A banner-grabbing strategy. `Auto` leaves the choice to the target port.
#[derive(Debug, Clone, Copy, PartialEq, Eq, Structural)]
pub enum Protocol {
    Auto,
    HTTP,
    HTTPS,
    FTP,
    SSH,
    SMTP,
    Telnet,
    Raw,
}

/// The hint named by an already lowercased string; anything unrecognised is `Auto`.
pub open spec fn hint_of_lowered(t: Seq<char>) -> Protocol {
    if t == "http"@ {
        Protocol::HTTP
    } else if t == "https"@ {
        Protocol::HTTPS
    } else if t == "ftp"@ {
        Protocol::FTP
    } else if t == "ssh"@ {
        Protocol::SSH
    } else if t == "smtp"@ {
        Protocol::SMTP
    } else if t == "telnet"@ {
        Protocol::Telnet
    } else if t == "raw"@ {
        Protocol::Raw
    } else {
        Protocol::Auto
    }
}

/// The hint that a free-form string names, compared without regard to case.
pub open spec fn hint_of(s: Seq<char>) -> Protocol {
    hint_of_lowered(lower_of(s))
}

/// The fixed table from well-known ports to protocols.
pub open spec fn protocol_for_port(port: int) -> Protocol {
    if port == 21 {
        Protocol::FTP
    } else if port == 22 {
        Protocol::SSH
    } else if port == 23 {
        Protocol::Telnet
    } else if port == 25 {
        Protocol::SMTP
    } else if port == 80 {
        Protocol::HTTP
    } else if port == 443 {
        Protocol::HTTPS
    } else {
        Protocol::Raw
    }
}

pub open spec fn default_port_of(p: Protocol) -> int {
    match p {
        Protocol::HTTP => 80,
        Protocol::HTTPS => 443,
        Protocol::FTP => 21,
        Protocol::SSH => 22,
        Protocol::SMTP => 25,
        Protocol::Telnet => 23,
        _ => 80,
    }
}

pub open spec fn is_digit(c: char) -> bool {
    '0' <= c && c <= '9'
}

/// The number that a sequence of decimal digits spells.
pub open spec fn digits_value(d: Seq<char>) -> int
    decreases d.len(),
{
    if d.len() == 0 {
        0
    } else {
        digits_value(d.drop_last()) * 10 + (d.last() as int - '0' as int)
    }
}

pub open spec fn all_digits(d: Seq<char>) -> bool {
    forall|i: int| 0 <= i < d.len() ==> is_digit(#[trigger] d[i])
}

/// The digits of a port string, after an optional leading `+`.
pub open spec fn port_digits(s: Seq<char>) -> Seq<char> {
    if s.len() > 0 && s[0] == '+' {
        s.drop_first()
    } else {
        s
    }
}

/// The port that a string denotes as a decimal 16-bit unsigned integer, if any.
pub open spec fn port_number(s: Seq<char>) -> Option<u16> {
    let d = port_digits(s);
    if d.len() > 0 && all_digits(d) && digits_value(d) <= 65535 {
        Some(digits_value(d) as u16)
    } else {
        None
    }
}

/// The port consulted for `Auto`: an unreadable port counts as 80.
pub open spec fn effective_port(s: Seq<char>) -> int {
    match port_number(s) {
        Some(p) => p as int,
        None => 80,
    }
}

/// The protocol that governs a grab with hint `hint` against port string `port`.
pub open spec fn resolve_spec(hint: Protocol, port: Seq<char>) -> Protocol {
    if hint == Protocol::Auto {
        protocol_for_port(effective_port(port))
    } else {
        hint
    }
}

proof fn lemma_digits_value_nonneg(d: Seq<char>)
    requires
        all_digits(d),
    ensures
        digits_value(d) >= 0,
    decreases d.len(),
{
    if d.len() > 0 {
        assert(is_digit(d[d.len() - 1]));
        assert(all_digits(d.drop_last())) by {
            assert forall|i: int| 0 <= i < d.drop_last().len() implies is_digit(
                #[trigger] d.drop_last()[i],
            ) by {
                assert(d.drop_last()[i] == d[i]);
            }
        }
        lemma_digits_value_nonneg(d.drop_last());
    }
}

/// A longer run of digits never spells a smaller number.
proof fn lemma_digits_value_grows(d: Seq<char>, k: int)
    requires
        all_digits(d),
        0 <= k <= d.len(),
    ensures
        digits_value(d.subrange(0, k)) <= digits_value(d),
    decreases d.len() - k,
{
    if k < d.len() {
        let e = d.drop_last();
        assert(all_digits(e)) by {
            assert forall|i: int| 0 <= i < e.len() implies is_digit(#[trigger] e[i]) by {
                assert(e[i] == d[i]);
            }
        }
        lemma_digits_value_grows(e, k);
        assert(e.subrange(0, k) =~= d.subrange(0, k));
        lemma_digits_value_nonneg(e);
        assert(is_digit(d[d.len() - 1]));
    } else {
        assert(d.subrange(0, k) =~= d);
    }
}

impl Protocol {
    /// Parses a protocol hint without regard to case; unknown names give `Auto`.
    pub fn from_str(s: &str) -> (r: Self)
        ensures
            r == hint_of(s@),
    {
        let lowered = lowercase(s);
        Self::from_lowered(lowered.as_str())
    }

    /// The hint named by an already lowercased string.
    pub fn from_lowered(t: &str) -> (r: Self)
        ensures
            r == hint_of_lowered(t@),
    {
        if str_eq(t, "http") {
            Protocol::HTTP
        } else if str_eq(t, "https") {
            Protocol::HTTPS
        } else if str_eq(t, "ftp") {
            Protocol::FTP
        } else if str_eq(t, "ssh") {
            Protocol::SSH
        } else if str_eq(t, "smtp") {
            Protocol::SMTP
        } else if str_eq(t, "telnet") {
            Protocol::Telnet
        } else if str_eq(t, "raw") {
            Protocol::Raw
        } else {
            Protocol::Auto
        }
    }

    /// The well-known port of the protocol; 80 for `Auto` and `Raw`.
    pub fn get_default_port(&self) -> (r: u16)
        ensures
            r as int == default_port_of(*self),
    {
        match self {
            Protocol::HTTP => 80,
            Protocol::HTTPS => 443,
            Protocol::FTP => 21,
            Protocol::SSH => 22,
            Protocol::SMTP => 25,
            Protocol::Telnet => 23,
            _ => 80,
        }
    }

    /// The protocol that the port table gives for `port`.
    pub fn detect_from_port(port: u16) -> (r: Self)
        ensures
            r == protocol_for_port(port as int),
    {
        match port {
            21 => Protocol::FTP,
            22 => Protocol::SSH,
            23 => Protocol::Telnet,
            25 => Protocol::SMTP,
            80 => Protocol::HTTP,
            443 => Protocol::HTTPS,
            _ => Protocol::Raw,
        }
    }

    /// The concrete protocol for a grab: the hint itself, or for `Auto` the
    /// table entry of the port, where an unreadable port counts as 80.
    pub fn resolve(hint: Protocol, port: &str) -> (r: Self)
        ensures
            r == resolve_spec(hint, port@),
            r != Protocol::Auto,
    {
        match hint {
            Protocol::Auto => {
                let p = match parse_port(port) {
                    Some(p) => p,
                    None => 80,
                };
                Self::detect_from_port(p)
            },
            _ => hint,
        }
    }
}

/// Reads a port as a decimal 16-bit unsigned integer with an optional leading `+`.
pub fn parse_port(s: &str) -> (r: Option<u16>)
    ensures
        r == port_number(s@),
{
    let n = s.unicode_len();
    let mut start: usize = 0;
    if n > 0 && s.get_char(0) == '+' {
        start = 1;
    }
    let ghost d = port_digits(s@);
    proof {
        assert(d =~= s@.subrange(start as int, n as int));
    }
    if start == n {
        return None;
    }
    let mut value: u32 = 0;
    let mut i = start;
    while i < n
        invariant
            n == s@.len(),
            start <= i <= n,
            d == s@.subrange(start as int, n as int),
            d == port_digits(s@),
            all_digits(d.subrange(0, i - start)),
            value as int == digits_value(d.subrange(0, i - start)),
            value <= 65535,
        decreases n - i,
    {
        let c = s.get_char(i);
        if !('0' <= c && c <= '9') {
            proof {
                assert(d[i - start] == c);
                assert(!is_digit(d[i - start]));
            }
            return None;
        }
        let ghost prev = d.subrange(0, i - start);
        let ghost next = d.subrange(0, i - start + 1);
        proof {
            assert(next.drop_last() =~= prev);
            assert(next.last() == c);
            assert(all_digits(next)) by {
                assert forall|k: int| 0 <= k < next.len() implies is_digit(#[trigger] next[k]) by {
                    if k < prev.len() {
                        assert(next[k] == prev[k]);
                    }
                }
            }
        }
        value = value * 10 + (c as u32 - '0' as u32);
        assert(value as int == digits_value(next));
        if value > 65535 {
            proof {
                if all_digits(d) {
                    lemma_digits_value_grows(d, i - start + 1);
                }
            }
            return None;
        }
        i = i + 1;
    }
    proof {
        assert(d.subrange(0, n - start) =~= d);
    }
    Some(value as u16)
}

/// For `Auto`, every port string that reads as a number is looked up in the
/// table: 21 FTP, 22 SSH, 23 Telnet, 25 SMTP, 80 HTTP, 443 HTTPS, otherwise Raw.
pub proof fn lemma_auto_uses_port_table(port: Seq<char>, p: u16)
    requires
        port_number(port) == Some(p),
    ensures
        resolve_spec(Protocol::Auto, port) == (if p == 21 {
            Protocol::FTP
        } else if p == 22 {
            Protocol::SSH
        } else if p == 23 {
            Protocol::Telnet
        } else if p == 25 {
            Protocol::SMTP
        } else if p == 80 {
            Protocol::HTTP
        } else if p == 443 {
            Protocol::HTTPS
        } else {
            Protocol::Raw
        }),
{
}

/// For `Auto`, a port string that is not a number resolves as the string "80"
/// does, that is to HTTP.
pub proof fn lemma_unreadable_port_counts_as_80(port: Seq<char>)
    requires
        port_number(port) is None,
    ensures
        resolve_spec(Protocol::Auto, port) == resolve_spec(Protocol::Auto, "80"@),
        resolve_spec(Protocol::Auto, port) == Protocol::HTTP,
{
    reveal_strlit("80");
    let d = "80"@;
    assert(port_digits(d) == d);
    assert(all_digits(d)) by {
        assert forall|i: int| 0 <= i < d.len() implies is_digit(#[trigger] d[i]) by {}
    }
    assert(d.len() == 2 && d[0] == '8' && d[1] == '0');
    let e = d.drop_last();
    assert(e.len() == 1 && e.last() == '8');
    assert(e.drop_last().len() == 0);
    assert(digits_value(e.drop_last()) == 0);
    assert(digits_value(e) == 8);
    assert(digits_value(d) == 80);
}

/// Hint parsing ignores case: strings with the same lowercase form name the
/// same hint, and every string names exactly one hint, `Auto` for any that
/// is not one of the seven protocol names.
pub proof fn lemma_hint_parse_ignores_case(a: Seq<char>, b: Seq<char>)
    requires
        lower_of(a) == lower_of(b),
    ensures
        hint_of(a) == hint_of(b),
        hint_of(a) == Protocol::Auto <==> !(lower_of(a) == "http"@ || lower_of(a) == "https"@
            || lower_of(a) == "ftp"@ || lower_of(a) == "ssh"@ || lower_of(a) == "smtp"@
            || lower_of(a) == "telnet"@ || lower_of(a) == "raw"@),
{
}

} // verus!
