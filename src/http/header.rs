//! The header codec: `Name: Value` lines to headers and back.
use vstd::prelude::*;
use crate::http::text::{char_vec, LineCursor};

verus! {

/// The name of the header that gives a body's media type.
pub const CONTENT_TYPE: &'static str = "Content-Type";

/// The media type of plain text.
pub const TEXT_PLAIN: &'static str = "text/plain";

/// The media type of HTML.
pub const TEXT_HTML: &'static str = "text/html";

/// One header: a name and a value.
#[derive(Debug)]
pub struct Header {
    pub name: String,
    pub value: String,
}

/// A line that is not of the form `Name: Value`.
#[derive(Debug)]
pub struct HeaderParseError;

impl View for Header {
    type V = (Seq<char>, Seq<char>);

    open spec fn view(&self) -> (Seq<char>, Seq<char>) {
        (self.name@, self.value@)
    }
}

/// The views of a sequence of headers, in order.
pub open spec fn headers_view(hs: Seq<Header>) -> Seq<(Seq<char>, Seq<char>)> {
    hs.map_values(|h: Header| h@)
}

/// The separator `": "` starts at index `i` of `line`.
pub open spec fn sep_at(line: Seq<char>, i: int) -> bool {
    0 <= i && i + 1 < line.len() && line[i] == ':' && line[i + 1] == ' '
}

/// `": "` occurs in `line` at index `i` and nowhere else.
pub open spec fn only_sep_at(line: Seq<char>, i: int) -> bool {
    sep_at(line, i) && forall|j: int| #[trigger] sep_at(line, j) ==> j == i
}

/// The name and value of a header line: `Some` exactly when the line splits
/// into two parts on `": "`, the part before and the part after.
pub open spec fn header_fields(line: Seq<char>) -> Option<(Seq<char>, Seq<char>)> {
    if exists|i: int| only_sep_at(line, i) {
        let i = choose|i: int| only_sep_at(line, i);
        Some((line.take(i), line.skip(i + 2)))
    } else {
        None
    }
}

/// The text of a header: `<name>: <value>`.
pub open spec fn header_line(h: (Seq<char>, Seq<char>)) -> Seq<char> {
    h.0 + seq![':', ' '] + h.1
}

/// The headers at the front of `lines`: one for each line up to the first
/// line that is not a header line, or to the end.
pub open spec fn header_run(lines: Seq<Seq<char>>) -> Seq<(Seq<char>, Seq<char>)>
    decreases lines.len(),
{
    if lines.len() == 0 {
        seq![]
    } else {
        match header_fields(lines[0]) {
            Some(h) => seq![h] + header_run(lines.drop_first()),
            None => seq![],
        }
    }
}

impl Header {
    /// A header with the given name and value.
    pub fn new(name: &str, value: &str) -> (r: Header)
        ensures
            r@ == (name@, value@),
    {
        Header { name: String::from_str(name), value: String::from_str(value) }
    }

    /// Reads a header from one line: the line must split into exactly two
    /// parts on `": "`.
    pub fn parse_line(line: &str) -> (r: Result<Header, HeaderParseError>)
        ensures
            header_fields(line@) is None <==> r is Err,
            r matches Ok(h) ==> header_fields(line@) == Some(h@),
    {
        let chars = char_vec(line);
        let n = chars.len();
        let mut found: Option<usize> = None;
        let mut i: usize = 0;
        while n > 0 && i < n - 1
            invariant
                chars@ == line@,
                n == chars.len(),
                i <= n,
                found is None ==> forall|j: int| 0 <= j < i ==> !sep_at(line@, j),
                found matches Some(k) ==> k < i && sep_at(line@, k as int) && forall|j: int|
                    0 <= j < i && j != k ==> !sep_at(line@, j),
            decreases n - i,
        {
            if chars[i] == ':' && chars[i + 1] == ' ' {
                if let Some(k) = found {
                    assert forall|x: int| !only_sep_at(line@, x) by {
                        if only_sep_at(line@, x) {
                            assert(sep_at(line@, k as int));
                            assert(sep_at(line@, i as int));
                        }
                    }
                    return Err(HeaderParseError);
                }
                found = Some(i);
            }
            i = i + 1;
        }
        match found {
            None => {
                assert(!(exists|x: int| only_sep_at(line@, x)));
                Err(HeaderParseError)
            },
            Some(k) => {
                assert(only_sep_at(line@, k as int));
                let name = String::from_str(line.substring_char(0, k));
                let value = String::from_str(line.substring_char(k + 2, n));
                let h = Header { name, value };
                assert(h.name@ =~= line@.take(k as int));
                assert(h.value@ =~= line@.skip(k + 2));
                Ok(h)
            },
        }
    }

    /// The header as one line of text.
    pub fn to_text(&self) -> (r: String)
        ensures
            r@ == header_line(self@),
    {
        let mut out = self.name.clone();
        let sep = ": ";
        proof {
            reveal_strlit(": ");
        }
        out.append(sep);
        out.append(self.value.as_str());
        assert(out@ =~= header_line(self@));
        out
    }
}

/// Reads the headers at the cursor: lines are taken while each splits into
/// a header, and the first line that does not is left in place.
pub fn parse_headers(lines: &mut LineCursor) -> (headers: Vec<Header>)
    ensures
        headers_view(headers@) == header_run(old(lines)@),
        final(lines)@ == old(lines)@.skip(headers@.len() as int),
{
    let mut headers: Vec<Header> = Vec::new();
    let ghost start = lines@;
    assert(start.skip(0) =~= start);
    assert(headers_view(headers@) + header_run(start) =~= header_run(start));
    loop
        invariant
            start == old(lines)@,
            headers@.len() <= start.len(),
            lines@ == start.skip(headers@.len() as int),
            header_run(start) == headers_view(headers@) + header_run(lines@),
        decreases lines@.len(),
    {
        let ghost before = lines@;
        let parsed = match lines.peek() {
            None => {
                assert(header_run(lines@) =~= Seq::<(Seq<char>, Seq<char>)>::empty());
                assert(headers_view(headers@) + Seq::<(Seq<char>, Seq<char>)>::empty() =~= headers_view(headers@));
                return headers;
            },
            Some(line) => Header::parse_line(line.as_str()),
        };
        match parsed {
            Ok(header) => {
                lines.next();
                assert(headers_view(headers@.push(header)) =~= headers_view(headers@).push(header@));
                assert(start.skip(headers@.len() as int + 1) =~= before.drop_first());
                headers.push(header);
                assert(header_run(before) =~= seq![header@] + header_run(lines@));
                assert(header_run(start) =~= headers_view(headers@) + header_run(lines@));
            },
            Err(_) => {
                assert(header_run(lines@) =~= Seq::<(Seq<char>, Seq<char>)>::empty());
                assert(headers_view(headers@) + Seq::<(Seq<char>, Seq<char>)>::empty() =~= headers_view(headers@));
                return headers;
            },
        }
    }
}

} // verus!
