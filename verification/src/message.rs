//! The wire-message text model shared by the builders and the parsers.
//!
//! A message is a start line followed by `Name: value` header lines, each
//! terminated by `\r\n`, with an empty line closing the header block.  The
//! spec-level renderer and parser below define that grammar once; the
//! executable builders and the executable parser are proved against them.

use vstd::prelude::*;

verus! {

/// The two-character line terminator.
pub open spec fn crlf() -> Seq<char> {
    seq!['\r', '\n']
}

/// Index of the first occurrence of `c` in `s`, or `s.len()` if absent.
pub open spec fn find_char(s: Seq<char>, c: char) -> nat
    decreases s.len(),
{
    if s.len() == 0 {
        0
    } else if s[0] == c {
        0
    } else {
        1 + find_char(s.drop_first(), c)
    }
}

/// `s` holds no occurrence of `c`.
pub open spec fn free_of(s: Seq<char>, c: char) -> bool {
    forall|i: int| 0 <= i < s.len() ==> s[i] != c
}

/// Freedom from a character is preserved by concatenation.
pub proof fn lemma_free_of_concat(a: Seq<char>, b: Seq<char>, c: char)
    requires
        free_of(a, c),
        free_of(b, c),
    ensures
        free_of(a + b, c),
{
    assert forall|i: int| 0 <= i < (a + b).len() implies (a + b)[i] != c by {
        if i < a.len() {
            assert((a + b)[i] == a[i]);
        } else {
            assert((a + b)[i] == b[i - a.len()]);
        }
    }
}

pub proof fn lemma_find_char_props(s: Seq<char>, c: char)
    ensures
        find_char(s, c) <= s.len(),
        forall|i: int| 0 <= i < find_char(s, c) ==> s[i] != c,
        find_char(s, c) < s.len() ==> s[find_char(s, c) as int] == c,
    decreases s.len(),
{
    if s.len() != 0 && s[0] != c {
        lemma_find_char_props(s.drop_first(), c);
        assert forall|i: int| 0 <= i < find_char(s, c) implies s[i] != c by {
            if i > 0 {
                assert(s[i] == s.drop_first()[i - 1]);
            }
        }
    }
}

/// The least-index characterisation pins `find_char` down.
pub proof fn lemma_find_char_unique(s: Seq<char>, c: char, i: nat)
    requires
        i <= s.len(),
        forall|j: int| 0 <= j < i ==> s[j] != c,
        i < s.len() ==> s[i as int] == c,
    ensures
        find_char(s, c) == i,
    decreases s.len(),
{
    if s.len() != 0 && s[0] != c {
        lemma_find_char_unique(s.drop_first(), c, (i - 1) as nat);
    }
}

/// Searching a concatenation whose first part is free of `c` skips over it.
pub proof fn lemma_find_char_concat(a: Seq<char>, b: Seq<char>, c: char)
    requires
        free_of(a, c),
    ensures
        find_char(a + b, c) == a.len() + find_char(b, c),
    decreases a.len(),
{
    if a.len() == 0 {
        assert(a + b =~= b);
    } else {
        assert((a + b).drop_first() =~= a.drop_first() + b);
        lemma_find_char_concat(a.drop_first(), b, c);
    }
}

/// Splits off the first `\r\n`-terminated line: `Some((line, rest))`, or
/// `None` where no full line terminator is found.
pub open spec fn take_line(s: Seq<char>) -> Option<(Seq<char>, Seq<char>)> {
    let i = find_char(s, '\r') as int;
    if i + 1 < s.len() && s[i + 1] == '\n' {
        Some((s.take(i), s.skip(i + 2)))
    } else {
        None
    }
}

/// A full line `a + crlf() + b` with `a` free of `'\r'` splits at `a`.
pub proof fn lemma_take_line_concat(a: Seq<char>, b: Seq<char>)
    requires
        free_of(a, '\r'),
    ensures
        take_line(a + crlf() + b) == Some((a, b)),
{
    let s = a + crlf() + b;
    assert(s =~= a + (crlf() + b));
    lemma_find_char_concat(a, crlf() + b, '\r');
    assert((crlf() + b)[0] == '\r');
    lemma_find_char_unique(crlf() + b, '\r', 0);
    let i = a.len() as int;
    assert(s[i + 1] == '\n');
    assert(s.take(i) =~= a);
    assert(s.skip(i + 2) =~= b);
}

/// Splits a header line at the first `": "`: `Some((name, value))`.
pub open spec fn split_header_line(line: Seq<char>) -> Option<(Seq<char>, Seq<char>)> {
    let i = find_char(line, ':') as int;
    if i + 1 < line.len() && line[i + 1] == ' ' {
        Some((line.take(i), line.skip(i + 2)))
    } else {
        None
    }
}

/// A rendered header line `name + ": " + value` with `name` free of `':'`
/// splits back into name and value.
pub proof fn lemma_split_header_line(name: Seq<char>, value: Seq<char>)
    requires
        free_of(name, ':'),
    ensures
        split_header_line(name + seq![':', ' '] + value) == Some((name, value)),
{
    let line = name + seq![':', ' '] + value;
    assert(line =~= name + (seq![':', ' '] + value));
    lemma_find_char_concat(name, seq![':', ' '] + value, ':');
    assert((seq![':', ' '] + value)[0] == ':');
    lemma_find_char_unique(seq![':', ' '] + value, ':', 0);
    let i = name.len() as int;
    assert(line[i + 1] == ' ');
    assert(line.take(i) =~= name);
    assert(line.skip(i + 2) =~= value);
}

/// One header as (name, value).
pub struct HeaderModel {
    pub name: Seq<char>,
    pub value: Seq<char>,
}

/// A whole message: start line plus ordered headers.
pub struct MessageModel {
    pub start: Seq<char>,
    pub headers: Seq<HeaderModel>,
}

/// One rendered header line, terminator included.
pub open spec fn render_header(h: HeaderModel) -> Seq<char> {
    h.name + seq![':', ' '] + h.value + crlf()
}

/// The rendered header block, one line per header.
pub open spec fn render_headers(hs: Seq<HeaderModel>) -> Seq<char>
    decreases hs.len(),
{
    if hs.len() == 0 {
        Seq::empty()
    } else {
        render_header(hs[0]) + render_headers(hs.drop_first())
    }
}

/// The rendered message: start line, header block, blank line.
pub open spec fn render_message(m: MessageModel) -> Seq<char> {
    m.start + crlf() + render_headers(m.headers) + crlf()
}

/// A header that renders and parses losslessly: the name is a nonempty
/// colon-free token and neither part holds a `'\r'`.
pub open spec fn wf_header(h: HeaderModel) -> bool {
    &&& h.name.len() > 0
    &&& free_of(h.name, ':')
    &&& free_of(h.name, '\r')
    &&& free_of(h.value, '\r')
}

/// A message whose rendering parses back to itself.
pub open spec fn wf_message(m: MessageModel) -> bool {
    &&& free_of(m.start, '\r')
    &&& forall|i: int| 0 <= i < m.headers.len() ==> wf_header(#[trigger] m.headers[i])
}

/// Parses a header block: header lines up to the first empty line; whatever
/// follows the empty line (a body) is ignored.
pub open spec fn parse_headers(s: Seq<char>) -> Option<Seq<HeaderModel>>
    decreases s.len(),
{
    match take_line(s) {
        None => None,
        Some((line, rest)) => {
            if line.len() == 0 {
                Some(Seq::empty())
            } else {
                match split_header_line(line) {
                    None => None,
                    Some((name, value)) => {
                        match parse_headers(rest) {
                            None => None,
                            Some(hs) => Some(seq![HeaderModel { name, value }] + hs),
                        }
                    },
                }
            }
        },
    }
}

/// Parses a whole message: start line, then the header block.
pub open spec fn parse_message(s: Seq<char>) -> Option<MessageModel> {
    match take_line(s) {
        None => None,
        Some((start, rest)) => {
            match parse_headers(rest) {
                None => None,
                Some(hs) => Some(MessageModel { start, headers: hs }),
            }
        },
    }
}

/// Rendering a well-formed header block and parsing it back is the identity.
#[verifier::rlimit(50)]
pub proof fn lemma_headers_round_trip(hs: Seq<HeaderModel>)
    requires
        forall|i: int| 0 <= i < hs.len() ==> wf_header(#[trigger] hs[i]),
    ensures
        parse_headers(render_headers(hs) + crlf()) == Some(hs),
    decreases hs.len(),
{
    if hs.len() == 0 {
        assert(render_headers(hs) + crlf() =~= Seq::<char>::empty() + crlf() + Seq::<char>::empty());
        lemma_take_line_concat(Seq::empty(), Seq::empty());
        assert(take_line(render_headers(hs) + crlf()) == Some((
            Seq::<char>::empty(),
            Seq::<char>::empty(),
        )));
    } else {
        let h = hs[0];
        let tail = hs.drop_first();
        let line = h.name + seq![':', ' '] + h.value;
        let rest = render_headers(tail) + crlf();
        let whole = render_headers(hs) + crlf();
        assert(render_headers(hs) == render_header(h) + render_headers(tail));
        assert(whole =~= line + crlf() + rest);
        assert(free_of(line, '\r'));
        lemma_take_line_concat(line, rest);
        assert(take_line(whole) == Some((line, rest)));
        assert(line.len() > 0);
        lemma_split_header_line(h.name, h.value);
        assert(split_header_line(line) == Some((h.name, h.value)));
        assert(forall|i: int| 0 <= i < tail.len() ==> wf_header(#[trigger] tail[i]));
        lemma_headers_round_trip(tail);
        assert(parse_headers(rest) == Some(tail));
        assert(seq![HeaderModel { name: h.name, value: h.value }] + tail =~= hs);
    }
}

/// Rendering a well-formed message and parsing it back is the identity.
pub proof fn lemma_message_round_trip(m: MessageModel)
    requires
        wf_message(m),
    ensures
        parse_message(render_message(m)) == Some(m),
{
    let rest = render_headers(m.headers) + crlf();
    assert(render_message(m) =~= m.start + crlf() + rest);
    lemma_take_line_concat(m.start, rest);
    lemma_headers_round_trip(m.headers);
}

/// The token of the start line up to the first space: the request method.
pub open spec fn first_token(s: Seq<char>) -> Seq<char> {
    s.take(find_char(s, ' ') as int)
}

/// The token between the first and second space: the status code of a
/// response start line.
pub open spec fn second_token(s: Seq<char>) -> Seq<char> {
    if find_char(s, ' ') < s.len() {
        first_token(s.skip(find_char(s, ' ') + 1 as int))
    } else {
        Seq::empty()
    }
}

/// Returns the start-line token up to the first space.
pub fn first_token_of(s: &str) -> (r: &str)
    ensures
        r@ == first_token(s@),
{
    let n: usize = s.unicode_len();
    let i: usize = find_char_in(s, ' ');
    proof {
        lemma_find_char_props(s@, ' ');
    }
    s.substring_char(0, i)
}

/// Returns the start-line token between the first and second space, or the
/// empty slice where there is no first space.
pub fn second_token_of(s: &str) -> (r: &str)
    ensures
        r@ == second_token(s@),
{
    let n: usize = s.unicode_len();
    let i: usize = find_char_in(s, ' ');
    proof {
        lemma_find_char_props(s@, ' ');
    }
    if i < n {
        let rest = s.substring_char(i + 1, n);
        proof {
            assert(rest@ =~= s@.skip(find_char(s@, ' ') + 1 as int));
        }
        first_token_of(rest)
    } else {
        let r = s.substring_char(n, n);
        proof {
            assert(r@ =~= Seq::<char>::empty());
        }
        r
    }
}

/// Character equality of two string slices.
pub fn str_eq(a: &str, b: &str) -> (r: bool)
    ensures
        r == (a@ == b@),
{
    let n: usize = a.unicode_len();
    let m: usize = b.unicode_len();
    if n != m {
        proof {
            assert(a@.len() != b@.len());
        }
        return false;
    }
    let mut i: usize = 0;
    while i < n
        invariant
            a@.len() == n,
            b@.len() == n,
            i <= n,
            forall|j: int| 0 <= j < i ==> a@[j] == b@[j],
        decreases n - i,
    {
        if a.get_char(i) != b.get_char(i) {
            return false;
        }
        i = i + 1;
    }
    proof {
        assert(a@ =~= b@);
    }
    true
}

/// Index of the first occurrence of `c` in `s`, or the length if absent.
pub fn find_char_in(s: &str, c: char) -> (i: usize)
    ensures
        i as nat == find_char(s@, c),
{
    let n: usize = s.unicode_len();
    let mut i: usize = 0;
    while i < n
        invariant
            s@.len() == n,
            i <= n,
            forall|j: int| 0 <= j < i ==> s@[j] != c,
        decreases n - i,
    {
        if s.get_char(i) == c {
            proof {
                lemma_find_char_unique(s@, c, i as nat);
            }
            return i;
        }
        i = i + 1;
    }
    proof {
        lemma_find_char_unique(s@, c, n as nat);
    }
    n
}

/// Splits off the first `\r\n`-terminated line of `s`.
pub fn take_line_from(s: &str) -> (r: Option<(&str, &str)>)
    ensures
        match r {
            Some(p) => take_line(s@) == Some((p.0@, p.1@)),
            None => take_line(s@) is None,
        },
{
    let n: usize = s.unicode_len();
    let i: usize = find_char_in(s, '\r');
    if i < n && i + 1 < n && s.get_char(i + 1) == '\n' {
        Some((s.substring_char(0, i), s.substring_char(i + 2, n)))
    } else {
        None
    }
}

/// Splits a header line at the first `": "`.
pub fn split_header_line_of(line: &str) -> (r: Option<(&str, &str)>)
    ensures
        match r {
            Some(p) => split_header_line(line@) == Some((p.0@, p.1@)),
            None => split_header_line(line@) is None,
        },
{
    let n: usize = line.unicode_len();
    let i: usize = find_char_in(line, ':');
    if i < n && i + 1 < n && line.get_char(i + 1) == ' ' {
        Some((line.substring_char(0, i), line.substring_char(i + 2, n)))
    } else {
        None
    }
}

/// One parsed header.
pub struct Header {
    pub name: String,
    pub value: String,
}

/// A parsed message: the start line and the headers in wire order.
pub struct ParsedMessage {
    pub start_line: String,
    pub headers: Vec<Header>,
}

pub open spec fn header_view(h: Header) -> HeaderModel {
    HeaderModel { name: h.name@, value: h.value@ }
}

pub open spec fn headers_view(hs: Seq<Header>) -> Seq<HeaderModel> {
    hs.map_values(|h: Header| header_view(h))
}

pub open spec fn parsed_view(m: ParsedMessage) -> MessageModel {
    MessageModel { start: m.start_line@, headers: headers_view(m.headers@) }
}

/// While parsing a header block: what the whole block `orig` parses to is
/// what remains of `rest`, prefixed by the headers already collected.
pub open spec fn block_parse_rel(orig: Seq<char>, acc: Seq<HeaderModel>, rest: Seq<char>) -> bool {
    parse_headers(orig) == match parse_headers(rest) {
        None => None::<Seq<HeaderModel>>,
        Some(hs) => Some(acc + hs),
    }
}

/// Parses one datagram, already decoded to text, into its start line and
/// header list; `None` exactly where the grammar rejects the text.
pub fn parse_datagram(input: &str) -> (r: Option<ParsedMessage>)
    ensures
        match r {
            Some(m) => parse_message(input@) == Some(parsed_view(m)),
            None => parse_message(input@) is None,
        },
{
    let first = take_line_from(input);
    match first {
        None => None,
        Some((start, rest_start)) => {
            let ghost orig: Seq<char> = rest_start@;
            let mut rest: &str = rest_start;
            let mut headers: Vec<Header> = Vec::new();
            loop
                invariant
                    take_line(input@) == Some((start@, orig)),
                    block_parse_rel(orig, headers_view(headers@), rest@),
                decreases rest@.len(),
            {
                match take_line_from(rest) {
                    None => {
                        return None;
                    },
                    Some((line, next)) => {
                        proof {
                            lemma_find_char_props(rest@, '\r');
                        }
                        if line.unicode_len() == 0 {
                            proof {
                                assert(parse_headers(rest@) == Some(Seq::<HeaderModel>::empty()));
                                assert(headers_view(headers@) + Seq::<HeaderModel>::empty()
                                    =~= headers_view(headers@));
                            }
                            return Some(
                                ParsedMessage { start_line: start.to_owned(), headers },
                            );
                        }
                        match split_header_line_of(line) {
                            None => {
                                return None;
                            },
                            Some((name, value)) => {
                                let ghost h = HeaderModel { name: name@, value: value@ };
                                let ghost acc_before = headers_view(headers@);
                                headers.push(
                                    Header { name: name.to_owned(), value: value.to_owned() },
                                );
                                proof {
                                    assert(headers_view(headers@) =~= acc_before.push(h));
                                    if parse_headers(next@) is Some {
                                        let hs = parse_headers(next@)->Some_0;
                                        assert(parse_headers(rest@) == Some(seq![h] + hs));
                                        assert(acc_before + (seq![h] + hs) =~= acc_before.push(h)
                                            + hs);
                                    } else {
                                        assert(parse_headers(rest@) is None);
                                    }
                                    assert(next@.len() < rest@.len());
                                }
                                rest = next;
                            },
                        }
                    },
                }
            }
        },
    }
}

} // verus!
