//! Multi-port scans: the ports a port list names, and the report that
//! collects one section per attempted port.

use vstd::prelude::*;
use vstd::seq_lib::lemma_flatten_concat;
use crate::extract::string_views;
use crate::text::{find_char, index_of, lemma_index_of, trim, trim_spec};

verus! {

/// The ports that a comma-separated list names, each trimmed, empty ones skipped.
pub open spec fn port_tokens_spec(s: Seq<char>) -> Seq<Seq<char>>
    decreases s.len(),
{
    let k = index_of(s, ',');
    if 0 <= k < s.len() {
        let t = trim_spec(s.subrange(0, k));
        let rest = port_tokens_spec(s.subrange(k + 1, s.len() as int));
        if t.len() == 0 {
            rest
        } else {
            seq![t] + rest
        }
    } else {
        let t = trim_spec(s);
        if t.len() == 0 {
            seq![]
        } else {
            seq![t]
        }
    }
}

/// The line drawn under each section header.
pub open spec fn separator() -> Seq<char> {
    "=================================================="@
}

/// The body of a section: the record of a successful grab, or an error line.
pub open spec fn outcome_text(outcome: Result<Seq<char>, Seq<char>>) -> Seq<char> {
    match outcome {
        Ok(record) => record,
        Err(e) => "Error: "@ + e + "\n"@,
    }
}

/// The report section of one attempted port.
pub open spec fn section_spec(
    host: Seq<char>,
    port: Seq<char>,
    outcome: Result<Seq<char>, Seq<char>>,
) -> Seq<char> {
    "\n=== Banner for "@ + host + ":"@ + port + "\n"@ + separator() + "\n"@ + outcome_text(outcome)
        + "\n"@
}

/// The sections of a scan whose ports had the given outcomes, added one port
/// at a time.
pub open spec fn scan_sections(
    host: Seq<char>,
    ports: Seq<Seq<char>>,
    outcomes: Seq<Result<Seq<char>, Seq<char>>>,
) -> Seq<Seq<char>>
    decreases ports.len(),
{
    if ports.len() == 0 || outcomes.len() == 0 {
        seq![]
    } else {
        scan_sections(host, ports.drop_last(), outcomes.drop_last()).push(
            section_spec(host, ports.last(), outcomes.last()),
        )
    }
}

pub open spec fn outcome_view(o: Result<String, String>) -> Result<Seq<char>, Seq<char>> {
    match o {
        Ok(r) => Ok(r@),
        Err(e) => Err(e@),
    }
}

/// The ports named by a comma-separated list, in order, each trimmed, with
/// empty entries skipped.
pub fn port_tokens(ports: &str) -> (r: Vec<String>)
    ensures
        string_views(r@) == port_tokens_spec(ports@),
{
    let n = ports.unicode_len();
    let mut out: Vec<String> = Vec::new();
    let mut p: usize = 0;
    let mut done = false;
    proof {
        assert(ports@.subrange(0, n as int) =~= ports@);
        assert(string_views(out@) + port_tokens_spec(ports@) =~= port_tokens_spec(ports@));
    }
    while !done
        invariant
            n == ports@.len(),
            p <= n,
            done ==> string_views(out@) == port_tokens_spec(ports@),
            !done ==> string_views(out@) + port_tokens_spec(ports@.subrange(p as int, n as int))
                == port_tokens_spec(ports@),
        decreases n - p + (if done {
            0int
        } else {
            1int
        }),
    {
        let ghost rest = ports@.subrange(p as int, n as int);
        let ghost before = string_views(out@);
        let k = find_char(ports, ',', p);
        proof {
            lemma_index_of(rest, ',');
        }
        let t = trim(ports.substring_char(p, k));
        proof {
            assert(rest.subrange(0, k - p) =~= ports@.subrange(p as int, k as int));
            if k == n {
                assert(rest.subrange(0, k - p) =~= rest);
            }
        }
        if t.unicode_len() > 0 {
            out.push(String::from_str(t));
            proof {
                assert(string_views(out@) =~= before.push(t@));
            }
        }
        if k == n {
            proof {
                if t@.len() > 0 {
                    assert(before + seq![t@] =~= before.push(t@));
                } else {
                    assert(before + seq![] =~= before);
                }
            }
            done = true;
        } else {
            proof {
                assert(rest.subrange(k - p + 1, rest.len() as int) =~= ports@.subrange(
                    k + 1,
                    n as int,
                ));
                let tail = port_tokens_spec(ports@.subrange(k + 1, n as int));
                if t@.len() > 0 {
                    assert(before + (seq![t@] + tail) =~= before.push(t@) + tail);
                }
            }
            p = k + 1;
        }
    }
    out
}

/// The saved report of a single-port grab: a header naming the target, then
/// the record.
pub fn single_report(host: &str, port: &str, record: &str) -> (r: String)
    ensures
        r@ == "Banner grab results for "@ + host@ + ":"@ + port@ + "\n"@ + record@,
{
    let mut r = String::from_str("Banner grab results for ");
    r.append(host);
    r.append(":");
    r.append(port);
    r.append("\n");
    r.append(record);
    r
}

/// A multi-port report under construction: one section per attempted port,
/// in the order the ports were attempted.
pub struct ScanReport {
    pub host: String,
    pub sections: Vec<String>,
}

impl ScanReport {
    /// An empty report for `host`.
    pub fn new(host: &str) -> (r: ScanReport)
        ensures
            r.host@ == host@,
            r.sections@.len() == 0,
    {
        ScanReport { host: String::from_str(host), sections: Vec::new() }
    }

    /// Appends the section of `port`: its header, the separator, then the
    /// record on success or an error line on failure.
    pub fn add(&mut self, port: &str, outcome: &Result<String, String>)
        ensures
            final(self).host@ == old(self).host@,
            string_views(final(self).sections@) == string_views(old(self).sections@).push(
                section_spec(old(self).host@, port@, outcome_view(*outcome)),
            ),
    {
        let mut s = String::from_str("\n=== Banner for ");
        s.append(self.host.as_str());
        s.append(":");
        s.append(port);
        s.append("\n");
        s.append("==================================================");
        s.append("\n");
        match outcome {
            Ok(record) => {
                s.append(record.as_str());
            },
            Err(e) => {
                s.append("Error: ");
                s.append(e.as_str());
                s.append("\n");
            },
        }
        s.append("\n");
        let ghost before = string_views(self.sections@);
        self.sections.push(s);
        proof {
            assert(string_views(self.sections@) =~= before.push(s@));
            assert(s@ =~= section_spec(old(self).host@, port@, outcome_view(*outcome)));
        }
    }

    /// The whole report: its sections one after another.
    pub fn render(&self) -> (r: String)
        ensures
            r@ == string_views(self.sections@).flatten(),
    {
        let ghost all = string_views(self.sections@);
        let mut r = String::new();
        let mut i: usize = 0;
        proof {
            assert(all.subrange(0, 0) =~= Seq::<Seq<char>>::empty());
        }
        while i < self.sections.len()
            invariant
                i <= self.sections.len(),
                all == string_views(self.sections@),
                r@ == all.subrange(0, i as int).flatten(),
            decreases self.sections.len() - i,
        {
            r.append(self.sections[i].as_str());
            proof {
                assert(all.subrange(0, i + 1) =~= all.subrange(0, i as int).push(all[i as int]));
                all.subrange(0, i as int).lemma_flatten_push(all[i as int]);
            }
            i = i + 1;
        }
        proof {
            assert(all.subrange(0, all.len() as int) =~= all);
        }
        r
    }
}

/// Every attempted port keeps a section of its own, in the order attempted: a
/// port whose grab failed holds its error line and leaves the sections of the
/// other ports as they are.
pub proof fn lemma_scan_keeps_every_port(
    host: Seq<char>,
    ports: Seq<Seq<char>>,
    outcomes: Seq<Result<Seq<char>, Seq<char>>>,
)
    requires
        ports.len() == outcomes.len(),
    ensures
        scan_sections(host, ports, outcomes).len() == ports.len(),
        forall|i: int|
            0 <= i < ports.len() ==> #[trigger] scan_sections(host, ports, outcomes)[i]
                == section_spec(host, ports[i], outcomes[i]),
    decreases ports.len(),
{
    if ports.len() > 0 {
        let (p, o) = (ports.drop_last(), outcomes.drop_last());
        lemma_scan_keeps_every_port(host, p, o);
        assert forall|i: int| 0 <= i < ports.len() implies #[trigger] scan_sections(
            host,
            ports,
            outcomes,
        )[i] == section_spec(host, ports[i], outcomes[i]) by {
            if i < ports.len() - 1 {
                assert(scan_sections(host, p, o)[i] == section_spec(host, p[i], o[i]));
            }
        }
    }
}

/// The rendered report of a scan holds, for any one port, the sections of the
/// ports before it, then its own section, then those of the ports after it.
pub proof fn lemma_report_order(
    host: Seq<char>,
    ports: Seq<Seq<char>>,
    outcomes: Seq<Result<Seq<char>, Seq<char>>>,
    i: int,
)
    requires
        ports.len() == outcomes.len(),
        0 <= i < ports.len(),
    ensures
        scan_sections(host, ports, outcomes).flatten() == scan_sections(
            host,
            ports.subrange(0, i),
            outcomes.subrange(0, i),
        ).flatten() + section_spec(host, ports[i], outcomes[i]) + scan_sections(
            host,
            ports.subrange(i + 1, ports.len() as int),
            outcomes.subrange(i + 1, ports.len() as int),
        ).flatten(),
{
    let n = ports.len() as int;
    let all = scan_sections(host, ports, outcomes);
    let (p1, o1) = (ports.subrange(0, i), outcomes.subrange(0, i));
    let (p2, o2) = (ports.subrange(i + 1, n), outcomes.subrange(i + 1, n));
    let before = scan_sections(host, p1, o1);
    let after = scan_sections(host, p2, o2);
    lemma_scan_keeps_every_port(host, ports, outcomes);
    lemma_scan_keeps_every_port(host, p1, o1);
    lemma_scan_keeps_every_port(host, p2, o2);
    let mid = seq![section_spec(host, ports[i], outcomes[i])];
    assert forall|k: int| 0 <= k < n implies #[trigger] all[k] == (before + mid + after)[k] by {
        if k < i {
            assert(before[k] == section_spec(host, p1[k], o1[k]));
        } else if k > i {
            assert(after[k - i - 1] == section_spec(host, p2[k - i - 1], o2[k - i - 1]));
        }
    }
    assert(all =~= before + mid + after);
    lemma_flatten_concat(before + mid, after);
    lemma_flatten_concat(before, mid);
    mid.lemma_flatten_one_element();
}

} // verus!
