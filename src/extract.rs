//! Labelled fields read out of banner text by fixed, per-protocol prefix rules.

use vstd::prelude::*;
use crate::protocol::Protocol;
use crate::text::{
    find_char, has_prefix, index_of, lemma_index_of, lower_of, lowercase, starts_with, trim,
    trim_spec,
};

verus! {

/// One labelled value taken from a banner, such as `Server: nginx`.
#[derive(Debug, Clone, PartialEq, Eq)]
pub struct Field {
    pub label: String,
    pub value: String,
}

impl View for Field {
    type V = (Seq<char>, Seq<char>);

    open spec fn view(&self) -> (Seq<char>, Seq<char>) {
        (self.label@, self.value@)
    }
}

pub open spec fn string_views(v: Seq<String>) -> Seq<Seq<char>> {
    v.map_values(|l: String| l@)
}

pub open spec fn field_views(v: Seq<Field>) -> Seq<(Seq<char>, Seq<char>)> {
    v.map_values(|f: Field| f@)
}

/// A line without the carriage return that ended it.
pub open spec fn strip_cr(l: Seq<char>) -> Seq<char> {
    if l.len() > 0 && l.last() == '\r' {
        l.drop_last()
    } else {
        l
    }
}

/// The lines of `s`: split at each `\n`, a `\r` right before it dropped, and
/// no empty line after a final `\n`.
pub open spec fn lines_spec(s: Seq<char>) -> Seq<Seq<char>>
    decreases s.len(),
{
    if s.len() == 0 {
        seq![]
    } else {
        let k = index_of(s, '\n');
        if 0 <= k < s.len() {
            seq![strip_cr(s.subrange(0, k))] + lines_spec(s.subrange(k + 1, s.len() as int))
        } else {
            seq![s]
        }
    }
}

/// What follows the first `:` of a line; empty when there is none.
pub open spec fn after_colon(line: Seq<char>) -> Seq<char> {
    let k = index_of(line, ':');
    if 0 <= k < line.len() {
        line.subrange(k + 1, line.len() as int)
    } else {
        seq![]
    }
}

/// The field that one HTTP header line yields, given the line and its lowercase form.
pub open spec fn http_field_spec(line: Seq<char>, lowered: Seq<char>) -> Option<
    (Seq<char>, Seq<char>),
> {
    if has_prefix(lowered, "server:"@) {
        Some(("Server"@, trim_spec(after_colon(line))))
    } else if has_prefix(lowered, "x-powered-by:"@) {
        Some(("Powered by"@, trim_spec(after_colon(line))))
    } else {
        None
    }
}

/// The fields of a sequence of HTTP header lines, in line order.
pub open spec fn http_fields_spec(lines: Seq<Seq<char>>) -> Seq<(Seq<char>, Seq<char>)>
    decreases lines.len(),
{
    if lines.len() == 0 {
        seq![]
    } else {
        let rest = http_fields_spec(lines.drop_first());
        match http_field_spec(lines[0], lower_of(lines[0])) {
            Some(f) => seq![f] + rest,
            None => rest,
        }
    }
}

pub open spec fn ssh_fields_spec(banner: Seq<char>) -> Seq<(Seq<char>, Seq<char>)> {
    let ls = lines_spec(banner);
    if ls.len() > 0 && has_prefix(ls[0], "SSH-"@) {
        seq![("SSH Version"@, trim_spec(ls[0]))]
    } else {
        seq![]
    }
}

pub open spec fn ftp_fields_spec(banner: Seq<char>) -> Seq<(Seq<char>, Seq<char>)> {
    if has_prefix(banner, "220"@) {
        seq![("FTP Ready"@, trim_spec(banner))]
    } else {
        seq![]
    }
}

/// The fields that the rules of protocol `p` find in `banner`.
pub open spec fn fields_spec(p: Protocol, banner: Seq<char>) -> Seq<(Seq<char>, Seq<char>)> {
    match p {
        Protocol::HTTP | Protocol::HTTPS => http_fields_spec(lines_spec(banner)),
        Protocol::SSH => ssh_fields_spec(banner),
        Protocol::FTP => ftp_fields_spec(banner),
        _ => seq![],
    }
}

/// Splits `s` into lines as `lines_spec` describes.
pub fn split_lines(s: &str) -> (r: Vec<String>)
    ensures
        string_views(r@) == lines_spec(s@),
{
    let n = s.unicode_len();
    let mut out: Vec<String> = Vec::new();
    let mut p: usize = 0;
    let mut done = false;
    proof {
        assert(s@.subrange(0, n as int) =~= s@);
        assert(string_views(out@) + lines_spec(s@) =~= lines_spec(s@));
    }
    while !done
        invariant
            n == s@.len(),
            p <= n,
            done ==> string_views(out@) == lines_spec(s@),
            !done ==> string_views(out@) + lines_spec(s@.subrange(p as int, n as int))
                == lines_spec(s@),
        decreases n - p + (if done { 0int } else { 1int }),
    {
        let ghost rest = s@.subrange(p as int, n as int);
        let ghost before = string_views(out@);
        if p == n {
            proof {
                assert(rest.len() == 0);
                assert(before + lines_spec(rest) =~= before);
            }
            done = true;
        } else {
            let k = find_char(s, '\n', p);
            proof {
                lemma_index_of(rest, '\n');
            }
            if k == n {
                let line = String::from_str(s.substring_char(p, n));
                out.push(line);
                proof {
                    assert(string_views(out@) =~= before.push(rest));
                    assert(lines_spec(rest) == seq![rest]);
                    assert(before + seq![rest] =~= before.push(rest));
                }
                done = true;
            } else {
                let end = if k > p && s.get_char(k - 1) == '\r' {
                    k - 1
                } else {
                    k
                };
                let line = String::from_str(s.substring_char(p, end));
                out.push(line);
                proof {
                    let head = rest.subrange(0, k - p);
                    if k > p {
                        assert(head.last() == s@[k - 1]);
                    }
                    assert(strip_cr(head) =~= s@.subrange(p as int, end as int));
                    assert(rest.subrange(k - p + 1, rest.len() as int) =~= s@.subrange(
                        k + 1,
                        n as int,
                    ));
                    assert(string_views(out@) =~= before.push(strip_cr(head)));
                    assert(before + lines_spec(rest) =~= before.push(strip_cr(head))
                        + lines_spec(s@.subrange(k + 1, n as int)));
                }
                p = k + 1;
            }
        }
    }
    out
}

/// The field that one HTTP header line yields; `lowered` is the line in lowercase.
pub fn http_field(line: &str, lowered: &str) -> (r: Option<Field>)
    ensures
        r matches Some(f) ==> http_field_spec(line@, lowered@) == Some(f@),
        r is None ==> http_field_spec(line@, lowered@) is None,
{
    let label = if starts_with(lowered, "server:") {
        "Server"
    } else if starts_with(lowered, "x-powered-by:") {
        "Powered by"
    } else {
        return None;
    };
    let n = line.unicode_len();
    let k = find_char(line, ':', 0);
    proof {
        assert(line@.subrange(0, n as int) =~= line@);
        lemma_index_of(line@, ':');
    }
    let value = if k < n {
        trim(line.substring_char(k + 1, n))
    } else {
        proof {
            assert(trim_spec(seq![]) =~= seq![]);
        }
        ""
    };
    proof {
        if k >= n {
            reveal_strlit("");
        }
    }
    Some(Field { label: String::from_str(label), value: String::from_str(value) })
}

/// The fields of HTTP header lines, in line order.
pub fn http_fields(lines: &Vec<String>) -> (r: Vec<Field>)
    ensures
        field_views(r@) == http_fields_spec(string_views(lines@)),
{
    let ghost all = string_views(lines@);
    let mut out: Vec<Field> = Vec::new();
    let mut i: usize = 0;
    proof {
        assert(all.subrange(0, all.len() as int) =~= all);
        assert(field_views(out@) + http_fields_spec(all) =~= http_fields_spec(all));
    }
    while i < lines.len()
        invariant
            i <= lines.len(),
            all == string_views(lines@),
            field_views(out@) + http_fields_spec(all.subrange(i as int, all.len() as int))
                == http_fields_spec(all),
        decreases lines.len() - i,
    {
        let line = lines[i].as_str();
        let lowered = lowercase(line);
        let f = http_field(line, lowered.as_str());
        let ghost before = field_views(out@);
        let ghost rest = all.subrange(i as int, all.len() as int);
        proof {
            assert(rest[0] == line@);
            assert(rest.drop_first() =~= all.subrange(i + 1, all.len() as int));
        }
        match f {
            Some(f) => {
                out.push(f);
                proof {
                    assert(field_views(out@) =~= before.push(f@));
                    assert(before + http_fields_spec(rest) =~= before.push(f@)
                        + http_fields_spec(rest.drop_first()));
                }
            },
            None => {},
        }
        i = i + 1;
    }
    proof {
        assert(all.subrange(lines.len() as int, all.len() as int) =~= seq![]);
        assert(field_views(out@) + seq![] =~= field_views(out@));
    }
    out
}

/// The fields that the rules of protocol `p` find in `banner`: `Server` and
/// `Powered by` headers for HTTP and HTTPS, the version line for SSH, the
/// ready line for FTP, and none for the rest.
pub fn extract_fields(p: Protocol, banner: &str) -> (r: Vec<Field>)
    ensures
        field_views(r@) == fields_spec(p, banner@),
{
    match p {
        Protocol::HTTP | Protocol::HTTPS => {
            let lines = split_lines(banner);
            http_fields(&lines)
        },
        Protocol::SSH => {
            let lines = split_lines(banner);
            let mut out: Vec<Field> = Vec::new();
            if lines.len() > 0 && starts_with(lines[0].as_str(), "SSH-") {
                let first = trim(lines[0].as_str());
                out.push(
                    Field {
                        label: String::from_str("SSH Version"),
                        value: String::from_str(first),
                    },
                );
            }
            proof {
                assert(field_views(out@) =~= fields_spec(p, banner@));
            }
            out
        },
        Protocol::FTP => {
            let mut out: Vec<Field> = Vec::new();
            if starts_with(banner, "220") {
                out.push(
                    Field {
                        label: String::from_str("FTP Ready"),
                        value: String::from_str(trim(banner)),
                    },
                );
            }
            proof {
                assert(field_views(out@) =~= fields_spec(p, banner@));
            }
            out
        },
        _ => {
            let out: Vec<Field> = Vec::new();
            proof {
                assert(field_views(out@) =~= fields_spec(p, banner@));
            }
            out
        },
    }
}

} // verus!
