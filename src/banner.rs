//! One banner grab: its options, the request it sends, the reads it makes,
//! and the record it renders from the captured text.

use vstd::prelude::*;
use crate::extract::{extract_fields, field_views, fields_spec, Field};
use crate::protocol::{resolve_spec, Protocol};
use crate::text::{trim, trim_spec};

verus! {

/// The largest number of bytes that a single-read grab captures.
pub const CHUNK_LEN: usize = 1024;

/// Settings of one grab.
#[derive(Debug, Clone)]
pub struct BannerOpts {
    pub host: String,
    pub port: String,
    pub timeout: u64,
    pub protocol: Protocol,
    pub verbose: bool,
}

/// How a protocol captures its banner from an open connection.
#[derive(Debug, Clone, Copy, PartialEq, Eq, Structural)]
pub enum ReadPlan {
    /// Read lines until a blank line or the end of the stream, keeping each.
    HeaderLines,
    /// Read exactly one line.
    OneLine,
    /// One read of at most `CHUNK_LEN` bytes.
    Chunk,
}

pub open spec fn label_spec(p: Protocol) -> Seq<char> {
    match p {
        Protocol::HTTP | Protocol::HTTPS => "HTTP"@,
        Protocol::FTP => "FTP"@,
        Protocol::SSH => "SSH"@,
        Protocol::SMTP => "SMTP"@,
        Protocol::Telnet => "Telnet"@,
        _ => "Raw"@,
    }
}

pub open spec fn read_plan_spec(p: Protocol) -> ReadPlan {
    match p {
        Protocol::HTTP | Protocol::HTTPS => ReadPlan::HeaderLines,
        Protocol::FTP | Protocol::SMTP => ReadPlan::OneLine,
        _ => ReadPlan::Chunk,
    }
}

pub open spec fn http_request_spec(host: Seq<char>) -> Seq<char> {
    "HEAD / HTTP/1.1\r\nHost: "@ + host
        + "\r\nUser-Agent: netcatr/1.0\r\nConnection: close\r\n\r\n"@
}

/// The lines `label: value`, one per field, in order.
pub open spec fn fields_text(fs: Seq<(Seq<char>, Seq<char>)>) -> Seq<char>
    decreases fs.len(),
{
    if fs.len() == 0 {
        seq![]
    } else {
        fs[0].0 + ": "@ + fs[0].1 + "\n"@ + fields_text(fs.drop_first())
    }
}

/// The display record of a banner captured under protocol `p`.
pub open spec fn record_spec(p: Protocol, banner: Seq<char>) -> Seq<char> {
    "Protocol: "@ + label_spec(p) + "\nBanner:\n"@ + trim_spec(banner) + "\n"@ + fields_text(
        fields_spec(p, banner),
    )
}

/// A name for what `String::from_utf8_lossy` makes of a byte sequence.
pub uninterp spec fn lossy_text_of(b: Seq<u8>) -> Seq<char>;

/// Relies on `String::from_utf8_lossy`: decoding never fails, and the text
/// depends on the bytes alone.
#[verifier::external_body]
fn decode_lossy(b: &[u8]) -> (r: String)
    ensures
        r@ == lossy_text_of(b@),
{
    String::from_utf8_lossy(b).into_owned()
}

/// The name under which a protocol's banner is reported.
pub fn protocol_label(p: Protocol) -> (r: &'static str)
    ensures
        r@ == label_spec(p),
{
    match p {
        Protocol::HTTP | Protocol::HTTPS => "HTTP",
        Protocol::FTP => "FTP",
        Protocol::SSH => "SSH",
        Protocol::SMTP => "SMTP",
        Protocol::Telnet => "Telnet",
        _ => "Raw",
    }
}

/// How protocol `p` captures its banner.
pub fn read_plan(p: Protocol) -> (r: ReadPlan)
    ensures
        r == read_plan_spec(p),
{
    match p {
        Protocol::HTTP | Protocol::HTTPS => ReadPlan::HeaderLines,
        Protocol::FTP | Protocol::SMTP => ReadPlan::OneLine,
        _ => ReadPlan::Chunk,
    }
}

/// The `HEAD /` request sent to an HTTP or HTTPS service on `host`.
pub fn http_request(host: &str) -> (r: String)
    ensures
        r@ == http_request_spec(host@),
{
    let mut r = String::from_str("HEAD / HTTP/1.1\r\nHost: ");
    r.append(host);
    r.append("\r\nUser-Agent: netcatr/1.0\r\nConnection: close\r\n\r\n");
    r
}

/// The text of `fields`, one `label: value` line each.
pub fn render_fields(fields: &Vec<Field>) -> (r: String)
    ensures
        r@ == fields_text(field_views(fields@)),
{
    let ghost all = field_views(fields@);
    let mut i = fields.len();
    let mut r = String::new();
    proof {
        assert(all.subrange(i as int, all.len() as int) =~= seq![]);
    }
    while i > 0
        invariant
            i <= fields.len(),
            all == field_views(fields@),
            r@ == fields_text(all.subrange(i as int, all.len() as int)),
        decreases i,
    {
        i = i - 1;
        let ghost rest = all.subrange(i as int, all.len() as int);
        proof {
            assert(rest.drop_first() =~= all.subrange(i + 1, all.len() as int));
            assert(rest[0] == fields@[i as int]@);
        }
        let mut line = fields[i].label.clone();
        line.append(": ");
        line.append(fields[i].value.as_str());
        line.append("\n");
        line.append(r.as_str());
        r = line;
    }
    proof {
        assert(all.subrange(0, all.len() as int) =~= all);
    }
    r
}

/// The display record of `banner` captured under protocol `p`: the protocol
/// label, the trimmed banner, then the extracted fields.
pub fn render_record(p: Protocol, banner: &str) -> (r: String)
    ensures
        r@ == record_spec(p, banner@),
{
    let fields = extract_fields(p, banner);
    let mut r = String::from_str("Protocol: ");
    r.append(protocol_label(p));
    r.append("\nBanner:\n");
    r.append(trim(banner));
    r.append("\n");
    let tail = render_fields(&fields);
    r.append(tail.as_str());
    r
}

impl BannerOpts {
    /// The same settings aimed at another port.
    pub fn with_port(&self, port: &str) -> (r: BannerOpts)
        ensures
            r.host@ == self.host@,
            r.port@ == port@,
            r.timeout == self.timeout,
            r.protocol == self.protocol,
            r.verbose == self.verbose,
    {
        BannerOpts {
            host: self.host.clone(),
            port: String::from_str(port),
            timeout: self.timeout,
            protocol: self.protocol,
            verbose: self.verbose,
        }
    }

    /// The `host:port` address to connect to.
    pub fn address(&self) -> (r: String)
        ensures
            r@ == self.host@ + ":"@ + self.port@,
    {
        let mut r = self.host.clone();
        r.append(":");
        r.append(self.port.as_str());
        r
    }

    /// The concrete protocol that governs a grab with these settings.
    pub fn resolved_protocol(&self) -> (r: Protocol)
        ensures
            r == resolve_spec(self.protocol, self.port@),
            r != Protocol::Auto,
    {
        Protocol::resolve(self.protocol, self.port.as_str())
    }
}

/// The state of one grab: the protocol in force, the text captured so far,
/// and whether capture is over.
pub struct BannerGrab {
    pub protocol: Protocol,
    pub text: String,
    pub done: bool,
}

impl BannerGrab {
    /// A grab under the protocol that `opts` resolves to, with nothing captured.
    pub fn start(opts: &BannerOpts) -> (r: BannerGrab)
        ensures
            r.protocol == resolve_spec(opts.protocol, opts.port@),
            r.text@ == Seq::<char>::empty(),
            !r.done,
    {
        BannerGrab { protocol: opts.resolved_protocol(), text: String::new(), done: false }
    }

    /// The request to send before reading, if the protocol has one.
    pub fn request(&self, host: &str) -> (r: Option<String>)
        ensures
            read_plan_spec(self.protocol) == ReadPlan::HeaderLines ==> (r matches Some(q)
                && q@ == http_request_spec(host@)),
            read_plan_spec(self.protocol) != ReadPlan::HeaderLines ==> r is None,
    {
        match read_plan(self.protocol) {
            ReadPlan::HeaderLines => Some(http_request(host)),
            _ => None,
        }
    }

    /// How the banner is to be read.
    pub fn plan(&self) -> (r: ReadPlan)
        ensures
            r == read_plan_spec(self.protocol),
    {
        read_plan(self.protocol)
    }

    /// Takes the bytes of one read (a line, or one chunk) and says whether
    /// another read is wanted. Header lines accumulate until an empty read or
    /// a blank line; the other plans keep their single read as the banner.
    pub fn feed(&mut self, bytes: &[u8]) -> (more: bool)
        ensures
            final(self).protocol == old(self).protocol,
            more == !final(self).done,
            old(self).done ==> final(self).text@ == old(self).text@ && final(self).done,
            !old(self).done && read_plan_spec(old(self).protocol) == ReadPlan::HeaderLines ==> (
            if bytes@.len() == 0 || trim_spec(lossy_text_of(bytes@)).len() == 0 {
                final(self).text@ == old(self).text@ && final(self).done
            } else {
                final(self).text@ == old(self).text@ + lossy_text_of(bytes@)
                    && !final(self).done
            }),
            !old(self).done && read_plan_spec(old(self).protocol) != ReadPlan::HeaderLines ==> (
            final(self).text@ == lossy_text_of(bytes@) && final(self).done),
    {
        if self.done {
            return false;
        }
        match read_plan(self.protocol) {
            ReadPlan::HeaderLines => {
                if bytes.len() == 0 {
                    self.done = true;
                } else {
                    let line = decode_lossy(bytes);
                    if trim(line.as_str()).unicode_len() == 0 {
                        self.done = true;
                    } else {
                        self.text.append(line.as_str());
                    }
                }
            },
            _ => {
                self.text = decode_lossy(bytes);
                self.done = true;
            },
        }
        !self.done
    }

    /// The display record of what was captured.
    pub fn record(&self) -> (r: String)
        ensures
            r@ == record_spec(self.protocol, self.text@),
    {
        render_record(self.protocol, self.text.as_str())
    }
}

} // verus!
