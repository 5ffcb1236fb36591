//! The response encoder: a structured response to wire bytes.
use vstd::prelude::*;
use vstd::utf8::encode_utf8;
use crate::http::header::{header_fields, header_line, header_run, only_sep_at};
use crate::http::message::{body_text, version_text, Message, MessageView};
use crate::http::text::{decimal, push_decimal};

verus! {

/// A response status. `OK` is the one status produced today; the type is
/// open for error statuses to come.
#[derive(Debug, Clone, Copy, PartialEq, Eq, Structural)]
#[non_exhaustive]
pub enum StatusCode {
    OK,
}

/// The numeric code of a status.
pub open spec fn status_code_num(s: StatusCode) -> u16 {
    match s {
        StatusCode::OK => 200,
    }
}

/// The reason text of a status.
pub open spec fn status_reason(s: StatusCode) -> Seq<char> {
    match s {
        StatusCode::OK => "OK"@,
    }
}

impl StatusCode {
    /// The numeric code of the status.
    pub fn code(&self) -> (r: u16)
        ensures
            r == status_code_num(*self),
    {
        match self {
            StatusCode::OK => 200,
        }
    }

    /// The reason text of the status.
    pub fn reason(&self) -> (r: &'static str)
        ensures
            r@ == status_reason(*self),
    {
        match self {
            StatusCode::OK => "OK",
        }
    }
}

/// A response: a status and a message.
pub struct Response {
    pub status_code: StatusCode,
    pub message: Message,
}

/// Lines joined by single line breaks, with none before the first or after
/// the last.
pub open spec fn join_lines(ls: Seq<Seq<char>>) -> Seq<char>
    decreases ls.len(),
{
    if ls.len() == 0 {
        seq![]
    } else if ls.len() == 1 {
        ls[0]
    } else {
        join_lines(ls.drop_last()) + "\n"@ + ls.last()
    }
}

/// The header section of a response: one `Name: Value` line per header,
/// in the order stored.
pub open spec fn headers_text(hs: Seq<(Seq<char>, Seq<char>)>) -> Seq<char> {
    join_lines(hs.map_values(|h: (Seq<char>, Seq<char>)| header_line(h)))
}

/// The status line: `HTTP/<version> <code> <reason>`.
pub open spec fn status_line(version: Seq<char>, status: StatusCode) -> Seq<char> {
    "HTTP/"@ + version + " "@ + decimal(status_code_num(status) as nat) + " "@ + status_reason(
        status,
    )
}

/// The text of a response: the status line, the header section and the
/// body's display form (empty where there is no body), joined by single
/// line breaks. No blank line stands before the body.
pub open spec fn response_text(status: StatusCode, m: MessageView) -> Seq<char> {
    status_line(version_text(m.version), status) + "\n"@ + headers_text(m.headers) + "\n"@
        + match m.body {
        Some(b) => body_text(b),
        None => seq![],
    }
}

impl Response {
    /// The wire bytes of the response: the UTF-8 encoding of its text.
    pub fn serialize(&self) -> (r: Vec<u8>)
        ensures
            r@ == encode_utf8(response_text(self.status_code, self.message@)),
    {
        let mut out = String::from_str("HTTP/");
        out.append(self.message.version.as_str());
        out.append(" ");
        push_decimal(&mut out, self.status_code.code() as u64);
        out.append(" ");
        out.append(self.status_code.reason());
        assert(out@ =~= status_line(version_text(self.message.version), self.status_code));
        out.append("\n");
        let ghost head = out@;
        let headers = &self.message.headers;
        let ghost lines = self.message@.headers.map_values(
            |h: (Seq<char>, Seq<char>)| header_line(h),
        );
        let mut k: usize = 0;
        while k < headers.len()
            invariant
                k <= headers.len(),
                lines.len() == headers.len(),
                forall|j: int| 0 <= j < headers.len() ==> lines[j] == header_line(#[trigger] headers@[j]@),
                out@ == head + join_lines(lines.take(k as int)),
            decreases headers.len() - k,
        {
            assert(lines.take(k + 1).drop_last() =~= lines.take(k as int));
            if k > 0 {
                out.append("\n");
            }
            let line = headers[k].to_text();
            out.append(line.as_str());
            k = k + 1;
            assert(out@ =~= head + join_lines(lines.take(k as int)));
        }
        assert(lines.take(k as int) =~= lines);
        out.append("\n");
        match &self.message.body {
            Some(b) => {
                let t = b.to_text();
                out.append(t.as_str());
            },
            None => {},
        }
        assert(out@ =~= response_text(self.status_code, self.message@));
        out.as_str().as_bytes_vec()
    }
}

/// A header line is given back whole by the text of the header read from it.
proof fn lemma_header_line_of_fields(line: Seq<char>)
    requires
        header_fields(line) is Some,
    ensures
        header_line(header_fields(line)->0) == line,
{
    let i = choose|i: int| only_sep_at(line, i);
    assert(line.take(i) + seq![':', ' '] + line.skip(i + 2) =~= line);
}

/// Header lines followed by a line that is not one: the header codec
/// captures one header per line, in input order, stopping at that line,
/// and the encoder's header section renders them as the same lines, one
/// per line.
pub proof fn lemma_header_lines_round_trip(
    lines: Seq<Seq<char>>,
    stop: Seq<char>,
    rest: Seq<Seq<char>>,
)
    requires
        forall|i: int| 0 <= i < lines.len() ==> (#[trigger] header_fields(lines[i])) is Some,
        header_fields(stop) is None,
    ensures
        header_run(lines + seq![stop] + rest).len() == lines.len(),
        forall|i: int|
            0 <= i < lines.len() ==> header_line(#[trigger] header_run(lines + seq![stop] + rest)[i])
                == lines[i],
        headers_text(header_run(lines + seq![stop] + rest)) == join_lines(lines),
    decreases lines.len(),
{
    let run = header_run(lines + seq![stop] + rest);
    if lines.len() == 0 {
        assert(lines + seq![stop] + rest =~= seq![stop] + rest);
        assert(run =~= Seq::<(Seq<char>, Seq<char>)>::empty());
        assert(run.map_values(|h: (Seq<char>, Seq<char>)| header_line(h)) =~= lines);
    } else {
        let tail = lines.drop_first();
        assert forall|i: int| 0 <= i < tail.len() implies (#[trigger] header_fields(tail[i])) is Some by {
            assert(tail[i] == lines[i + 1]);
        }
        lemma_header_lines_round_trip(tail, stop, rest);
        let all = lines + seq![stop] + rest;
        assert(all.drop_first() =~= tail + seq![stop] + rest);
        assert(all[0] == lines[0]);
        assert(header_fields(lines[0]) is Some);
        let h = header_fields(lines[0])->0;
        let tail_run = header_run(tail + seq![stop] + rest);
        assert(run == seq![h] + tail_run);
        lemma_header_line_of_fields(lines[0]);
        assert forall|i: int| 0 <= i < lines.len() implies header_line(#[trigger] run[i]) == lines[i] by {
            if i > 0 {
                assert(run[i] == tail_run[i - 1]);
                assert(lines[i] == tail[i - 1]);
            }
        }
        assert(run.map_values(|h: (Seq<char>, Seq<char>)| header_line(h)) =~= lines);
    }
}

} // verus!
