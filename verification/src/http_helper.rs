//! The message codec: four builders for the SSDP wire messages, each proved
//! to render exactly the message model that the parser in
//! [`crate::message`] reads back.

use vstd::prelude::*;

use crate::message::crlf;
use crate::message::free_of;
use crate::message::lemma_free_of_concat;
use crate::message::wf_header;
use crate::message::wf_message;
use crate::message::render_header;
use crate::message::render_headers;
use crate::message::render_message;
use crate::message::Header;
use crate::message::HeaderModel;
use crate::message::MessageModel;
use crate::message::headers_view;
use crate::service::DescriptionModel;
use crate::service::ServiceDescription;
use crate::MulticastAddr;
use crate::SSDP_PORT;

verus! {

/// The character for one decimal digit value.
pub open spec fn digit_char(d: nat) -> char {
    if d == 0 {
        '0'
    } else if d == 1 {
        '1'
    } else if d == 2 {
        '2'
    } else if d == 3 {
        '3'
    } else if d == 4 {
        '4'
    } else if d == 5 {
        '5'
    } else if d == 6 {
        '6'
    } else if d == 7 {
        '7'
    } else if d == 8 {
        '8'
    } else {
        '9'
    }
}

/// The decimal text of `n`, most significant digit first, no leading zeros.
pub open spec fn dec_digits(n: nat) -> Seq<char>
    decreases n,
{
    if n < 10 {
        seq![digit_char(n)]
    } else {
        dec_digits(n / 10) + seq![digit_char(n % 10)]
    }
}

/// Decimal text holds digit characters only.
pub proof fn lemma_dec_digits_free(n: nat, c: char)
    requires
        c != '0' && c != '1' && c != '2' && c != '3' && c != '4',
        c != '5' && c != '6' && c != '7' && c != '8' && c != '9',
    ensures
        free_of(dec_digits(n), c),
    decreases n,
{
    if n >= 10 {
        lemma_dec_digits_free(n / 10, c);
    }
}

fn digit_str(d: u32) -> (r: &'static str)
    requires
        d < 10,
    ensures
        r@ == seq![digit_char(d as nat)],
{
    let r: &'static str = if d == 0 {
        "0"
    } else if d == 1 {
        "1"
    } else if d == 2 {
        "2"
    } else if d == 3 {
        "3"
    } else if d == 4 {
        "4"
    } else if d == 5 {
        "5"
    } else if d == 6 {
        "6"
    } else if d == 7 {
        "7"
    } else if d == 8 {
        "8"
    } else {
        "9"
    };
    proof {
        reveal_strlit("0");
        reveal_strlit("1");
        reveal_strlit("2");
        reveal_strlit("3");
        reveal_strlit("4");
        reveal_strlit("5");
        reveal_strlit("6");
        reveal_strlit("7");
        reveal_strlit("8");
        reveal_strlit("9");
        assert(r@ =~= seq![digit_char(d as nat)]);
    }
    r
}

/// Renders `n` as decimal text.
pub fn u32_to_dec(n: u32) -> (r: String)
    ensures
        r@ == dec_digits(n as nat),
    decreases n,
{
    if n < 10 {
        digit_str(n).to_owned()
    } else {
        let mut r = u32_to_dec(n / 10);
        r.append(digit_str(n % 10));
        r
    }
}

/// The value of a `Host` header: address, colon, the well-known port.
pub open spec fn host_value(a: MulticastAddr) -> Seq<char> {
    a.addr_text() + ":"@ + dec_digits(SSDP_PORT as nat)
}

fn build_host_value(a: &MulticastAddr) -> (r: String)
    ensures
        r@ == host_value(*a),
{
    let mut r = a.ip_text().to_owned();
    r.append(":");
    let port = u32_to_dec(SSDP_PORT as u32);
    r.append(port.as_str());
    r
}

/// The value of an `AL` header: the two parts, each in angle brackets.
pub open spec fn al_value(first: Seq<char>, location: Seq<char>) -> Seq<char> {
    "<"@ + first + "><"@ + location + ">"@
}

fn build_al_value(first: &String, location: &String) -> (r: String)
    ensures
        r@ == al_value(first@, location@),
{
    let mut r = "<".to_owned();
    r.append(first.as_str());
    r.append("><");
    r.append(location.as_str());
    r.append(">");
    r
}

/// Rendering one more header extends the block by one line.
pub proof fn lemma_render_headers_snoc(hs: Seq<HeaderModel>, h: HeaderModel)
    ensures
        render_headers(hs.push(h)) == render_headers(hs) + render_header(h),
    decreases hs.len(),
{
    if hs.len() == 0 {
        let single = hs.push(h);
        assert(single[0] == h);
        assert(single.drop_first() =~= Seq::<HeaderModel>::empty());
        assert(render_headers(Seq::<HeaderModel>::empty()) == Seq::<char>::empty());
        assert(render_headers(single) == render_header(h) + Seq::<char>::empty());
        assert(render_header(h) + Seq::<char>::empty() =~= Seq::<char>::empty()
            + render_header(h));
    } else {
        let t = hs.drop_first();
        assert(hs.push(h)[0] == hs[0]);
        assert(hs.push(h).drop_first() =~= t.push(h));
        lemma_render_headers_snoc(t, h);
        assert(render_headers(hs.push(h)) == render_header(hs[0]) + (render_headers(t)
            + render_header(h)));
        assert(render_headers(hs) == render_header(hs[0]) + render_headers(t));
        assert(render_header(hs[0]) + (render_headers(t) + render_header(h))
            =~= (render_header(hs[0]) + render_headers(t)) + render_header(h));
    }
}

/// Renders a start line and a header list into the full message text.
fn render(start_line: &str, headers: Vec<Header>) -> (r: String)
    ensures
        r@ == render_message(
            MessageModel { start: start_line@, headers: headers_view(headers@) },
        ),
{
    proof {
        reveal_strlit("\r\n");
        reveal_strlit(": ");
    }
    let hv = Ghost(headers_view(headers@));
    let mut r = start_line.to_owned();
    r.append("\r\n");
    let n: usize = headers.len();
    let mut i: usize = 0;
    proof {
        assert(r@ =~= start_line@ + crlf() + render_headers(hv@.take(0)));
    }
    while i < n
        invariant
            n == headers@.len(),
            i <= n,
            hv@ == headers_view(headers@),
            r@ == start_line@ + crlf() + render_headers(hv@.take(i as int)),
        decreases n - i,
    {
        let h = &headers[i];
        r.append(h.name.as_str());
        r.append(": ");
        r.append(h.value.as_str());
        r.append("\r\n");
        proof {
            reveal_strlit("\r\n");
            reveal_strlit(": ");
            assert(hv@.take(i + 1) =~= hv@.take(i as int).push(hv@[i as int]));
            lemma_render_headers_snoc(hv@.take(i as int), hv@[i as int]);
            assert(hv@[i as int] == crate::message::header_view(headers@[i as int]));
            assert(": "@ =~= seq![':', ' ']);
            assert("\r\n"@ =~= crlf());
            assert(render_header(hv@[i as int]) =~= headers@[i as int].name@ + ": "@
                + headers@[i as int].value@ + "\r\n"@);
            assert(r@ =~= start_line@ + crlf() + render_headers(hv@.take(i + 1)));
        }
        i = i + 1;
    }
    r.append("\r\n");
    proof {
        assert(hv@.take(n as int) =~= hv@);
    }
    r
}

/// The search request: method `M-SEARCH`, headers `S`, `Host`, `MAN`, `ST`,
/// `MX` in that order.
pub open spec fn search_model(s: Seq<char>, st: Seq<char>, a: MulticastAddr) -> MessageModel {
    MessageModel {
        start: "M-SEARCH * HTTP/1.1"@,
        headers: seq![
            HeaderModel { name: "S"@, value: s },
            HeaderModel { name: "Host"@, value: host_value(a) },
            HeaderModel { name: "MAN"@, value: "\"ssdp:discover\""@ },
            HeaderModel { name: "ST"@, value: st },
            HeaderModel { name: "MX"@, value: "1"@ },
        ],
    }
}

/// The search answer: status line `HTTP/1.1 200 OK`, headers `S`, `Ext`,
/// `Cache-Control`, `ST`, `USN`, `AL` in that order.
pub open spec fn answer_model(d: DescriptionModel, s: Seq<char>) -> MessageModel {
    MessageModel {
        start: "HTTP/1.1 200 OK"@,
        headers: seq![
            HeaderModel { name: "S"@, value: s },
            HeaderModel { name: "Ext"@, value: ""@ },
            HeaderModel {
                name: "Cache-Control"@,
                value: "no-cache=\"Ext\", max-age="@ + dec_digits(d.expiration as nat),
            },
            HeaderModel { name: "ST"@, value: d.service_type_uri },
            HeaderModel { name: "USN"@, value: d.usn_uri },
            HeaderModel { name: "AL"@, value: al_value(d.service_type_uri, d.location) },
        ],
    }
}

/// The alive announcement: method `NOTIFY`, headers `Host`, `NT`, `NTS`,
/// `USN`, `AL`, `Cache-Control` in that order.
pub open spec fn alive_model(d: DescriptionModel, a: MulticastAddr) -> MessageModel {
    MessageModel {
        start: "NOTIFY * HTTP/1.1"@,
        headers: seq![
            HeaderModel { name: "Host"@, value: host_value(a) },
            HeaderModel { name: "NT"@, value: d.service_type_uri },
            HeaderModel { name: "NTS"@, value: "ssdp:alive"@ },
            HeaderModel { name: "USN"@, value: d.usn_uri },
            HeaderModel { name: "AL"@, value: al_value(d.usn_uri, d.location) },
            HeaderModel {
                name: "Cache-Control"@,
                value: "max-age = "@ + dec_digits(d.expiration as nat),
            },
        ],
    }
}

/// The byebye announcement: method `NOTIFY`, headers `Host`, `NT`, `NTS`,
/// `USN` in that order.
pub open spec fn byebye_model(d: DescriptionModel, a: MulticastAddr) -> MessageModel {
    MessageModel {
        start: "NOTIFY * HTTP/1.1"@,
        headers: seq![
            HeaderModel { name: "Host"@, value: host_value(a) },
            HeaderModel { name: "NT"@, value: d.service_type_uri },
            HeaderModel { name: "NTS"@, value: "ssdp:byebye"@ },
            HeaderModel { name: "USN"@, value: d.usn_uri },
        ],
    }
}

proof fn lemma_host_value_free(a: MulticastAddr)
    ensures
        free_of(host_value(a), '\r'),
{
    reveal_strlit("239.255.255.250");
    reveal_strlit("ff02::c");
    reveal_strlit("ff05::c");
    reveal_strlit("127.0.0.1");
    reveal_strlit(":");
    match a {
        MulticastAddr::V4 => assert(free_of(a.addr_text(), '\r')),
        MulticastAddr::V6LinkLocal => assert(free_of(a.addr_text(), '\r')),
        MulticastAddr::V6SiteLocal => assert(free_of(a.addr_text(), '\r')),
        MulticastAddr::Loopback => assert(free_of(a.addr_text(), '\r')),
    }
    lemma_dec_digits_free(SSDP_PORT as nat, '\r');
    lemma_free_of_concat(a.addr_text(), ":"@, '\r');
    lemma_free_of_concat(a.addr_text() + ":"@, dec_digits(SSDP_PORT as nat), '\r');
}

proof fn lemma_al_value_free(first: Seq<char>, location: Seq<char>)
    requires
        free_of(first, '\r'),
        free_of(location, '\r'),
    ensures
        free_of(al_value(first, location), '\r'),
{
    reveal_strlit("<");
    reveal_strlit("><");
    reveal_strlit(">");
    lemma_free_of_concat("<"@, first, '\r');
    lemma_free_of_concat("<"@ + first, "><"@, '\r');
    lemma_free_of_concat("<"@ + first + "><"@, location, '\r');
    lemma_free_of_concat("<"@ + first + "><"@ + location, ">"@, '\r');
}

/// All fields of a description are free of the line terminator, so its
/// messages render and parse losslessly.
pub open spec fn wire_safe(d: DescriptionModel) -> bool {
    &&& free_of(d.usn_uri, '\r')
    &&& free_of(d.service_type_uri, '\r')
    &&& free_of(d.location, '\r')
}

proof fn lemma_answer_model_wf(d: DescriptionModel, s: Seq<char>)
    requires
        wire_safe(d),
        free_of(s, '\r'),
    ensures
        wf_message(answer_model(d, s)),
{
    reveal_strlit("HTTP/1.1 200 OK");
    reveal_strlit("S");
    reveal_strlit("Ext");
    reveal_strlit("Cache-Control");
    reveal_strlit("ST");
    reveal_strlit("USN");
    reveal_strlit("AL");
    reveal_strlit("");
    reveal_strlit("no-cache=\"Ext\", max-age=");
    lemma_dec_digits_free(d.expiration as nat, '\r');
    lemma_free_of_concat("no-cache=\"Ext\", max-age="@, dec_digits(d.expiration as nat), '\r');
    lemma_al_value_free(d.service_type_uri, d.location);
    let m = answer_model(d, s);
    assert(wf_header(m.headers[0]));
    assert(wf_header(m.headers[1]));
    assert(wf_header(m.headers[2]));
    assert(wf_header(m.headers[3]));
    assert(wf_header(m.headers[4]));
    assert(wf_header(m.headers[5]));
    assert forall|i: int| 0 <= i < m.headers.len() implies wf_header(#[trigger] m.headers[i]) by {
    }
}

proof fn lemma_search_model_wf(s: Seq<char>, st: Seq<char>, a: MulticastAddr)
    requires
        free_of(s, '\r'),
        free_of(st, '\r'),
    ensures
        wf_message(search_model(s, st, a)),
{
    reveal_strlit("M-SEARCH * HTTP/1.1");
    reveal_strlit("S");
    reveal_strlit("Host");
    reveal_strlit("MAN");
    reveal_strlit("ST");
    reveal_strlit("MX");
    reveal_strlit("\"ssdp:discover\"");
    reveal_strlit("1");
    lemma_host_value_free(a);
    let m = search_model(s, st, a);
    assert(wf_header(m.headers[0]));
    assert(wf_header(m.headers[1]));
    assert(wf_header(m.headers[2]));
    assert(wf_header(m.headers[3]));
    assert(wf_header(m.headers[4]));
    assert forall|i: int| 0 <= i < m.headers.len() implies wf_header(#[trigger] m.headers[i]) by {
    }
}

/// Round trip of the codec on a search answer: the built message parses
/// back to exactly its model, so the header values at the documented slots
/// are textually the description's fields.
pub proof fn lemma_answer_round_trip(d: DescriptionModel, s: Seq<char>)
    requires
        wire_safe(d),
        free_of(s, '\r'),
    ensures
        crate::message::parse_message(render_message(answer_model(d, s))) == Some(
            answer_model(d, s),
        ),
{
    lemma_answer_model_wf(d, s);
    crate::message::lemma_message_round_trip(answer_model(d, s));
}

/// Round trip of the codec on a search request.
pub proof fn lemma_search_round_trip(s: Seq<char>, st: Seq<char>, a: MulticastAddr)
    requires
        free_of(s, '\r'),
        free_of(st, '\r'),
    ensures
        crate::message::parse_message(render_message(search_model(s, st, a))) == Some(
            search_model(s, st, a),
        ),
{
    lemma_search_model_wf(s, st, a);
    crate::message::lemma_message_round_trip(search_model(s, st, a));
}

/// Structural determinism of the search request: whatever the field
/// contents, the start line, the header count and the header names in their
/// order are fixed.
pub proof fn lemma_search_structure(s: Seq<char>, st: Seq<char>, a: MulticastAddr)
    ensures
        ({
            let m = search_model(s, st, a);
            &&& m.start == "M-SEARCH * HTTP/1.1"@
            &&& m.headers.len() == 5
            &&& m.headers[0].name == "S"@ && m.headers[0].value == s
            &&& m.headers[1].name == "Host"@ && m.headers[1].value == host_value(a)
            &&& m.headers[2].name == "MAN"@ && m.headers[2].value == "\"ssdp:discover\""@
            &&& m.headers[3].name == "ST"@ && m.headers[3].value == st
            &&& m.headers[4].name == "MX"@ && m.headers[4].value == "1"@
        }),
{
}

/// Structural determinism of the search answer.
pub proof fn lemma_answer_structure(d: DescriptionModel, s: Seq<char>)
    ensures
        ({
            let m = answer_model(d, s);
            &&& m.start == "HTTP/1.1 200 OK"@
            &&& m.headers.len() == 6
            &&& m.headers[0].name == "S"@ && m.headers[0].value == s
            &&& m.headers[1].name == "Ext"@ && m.headers[1].value == ""@
            &&& m.headers[2].name == "Cache-Control"@ && m.headers[2].value
                == "no-cache=\"Ext\", max-age="@ + dec_digits(d.expiration as nat)
            &&& m.headers[3].name == "ST"@ && m.headers[3].value == d.service_type_uri
            &&& m.headers[4].name == "USN"@ && m.headers[4].value == d.usn_uri
            &&& m.headers[5].name == "AL"@ && m.headers[5].value == al_value(
                d.service_type_uri,
                d.location,
            )
        }),
{
}

/// Structural determinism of the alive announcement.
pub proof fn lemma_alive_structure(d: DescriptionModel, a: MulticastAddr)
    ensures
        ({
            let m = alive_model(d, a);
            &&& m.start == "NOTIFY * HTTP/1.1"@
            &&& m.headers.len() == 6
            &&& m.headers[0].name == "Host"@ && m.headers[0].value == host_value(a)
            &&& m.headers[1].name == "NT"@ && m.headers[1].value == d.service_type_uri
            &&& m.headers[2].name == "NTS"@ && m.headers[2].value == "ssdp:alive"@
            &&& m.headers[3].name == "USN"@ && m.headers[3].value == d.usn_uri
            &&& m.headers[4].name == "AL"@ && m.headers[4].value == al_value(
                d.usn_uri,
                d.location,
            )
            &&& m.headers[5].name == "Cache-Control"@ && m.headers[5].value == "max-age = "@
                + dec_digits(d.expiration as nat)
        }),
{
}

/// Structural determinism of the byebye announcement.
pub proof fn lemma_byebye_structure(d: DescriptionModel, a: MulticastAddr)
    ensures
        ({
            let m = byebye_model(d, a);
            &&& m.start == "NOTIFY * HTTP/1.1"@
            &&& m.headers.len() == 4
            &&& m.headers[0].name == "Host"@ && m.headers[0].value == host_value(a)
            &&& m.headers[1].name == "NT"@ && m.headers[1].value == d.service_type_uri
            &&& m.headers[2].name == "NTS"@ && m.headers[2].value == "ssdp:byebye"@
            &&& m.headers[3].name == "USN"@ && m.headers[3].value == d.usn_uri
        }),
{
}

/// Generates `ssdp:alive`.
///
/// This should be multicasted when a [`crate::service::Service`] is starting.
pub fn generate_ssdp_alive(
    service_description: &ServiceDescription,
    ssdp_multicast_addr: &MulticastAddr,
) -> (r: String)
    ensures
        r@ == render_message(alive_model(service_description@, *ssdp_multicast_addr)),
{
    let mut headers: Vec<Header> = Vec::new();
    headers.push(Header { name: "Host".to_owned(), value: build_host_value(ssdp_multicast_addr) });
    headers.push(Header { name: "NT".to_owned(), value: service_description.service_type_uri.clone() });
    headers.push(Header { name: "NTS".to_owned(), value: "ssdp:alive".to_owned() });
    headers.push(Header { name: "USN".to_owned(), value: service_description.usn_uri.clone() });
    headers.push(
        Header {
            name: "AL".to_owned(),
            value: build_al_value(&service_description.usn_uri, &service_description.location),
        },
    );
    let mut cache = "max-age = ".to_owned();
    let age = u32_to_dec(service_description.expiration);
    cache.append(age.as_str());
    headers.push(Header { name: "Cache-Control".to_owned(), value: cache });
    proof {
        assert(headers_view(headers@) =~= alive_model(service_description@, *ssdp_multicast_addr).headers);
    }
    render("NOTIFY * HTTP/1.1", headers)
}

/// Generates `ssdp:byebye`.
///
/// This should be multicasted when a [`crate::service::Service`] is stopping.
pub fn generate_ssdp_byebye(
    service_description: &ServiceDescription,
    ssdp_multicast_addr: &MulticastAddr,
) -> (r: String)
    ensures
        r@ == render_message(byebye_model(service_description@, *ssdp_multicast_addr)),
{
    let mut headers: Vec<Header> = Vec::new();
    headers.push(Header { name: "Host".to_owned(), value: build_host_value(ssdp_multicast_addr) });
    headers.push(Header { name: "NT".to_owned(), value: service_description.service_type_uri.clone() });
    headers.push(Header { name: "NTS".to_owned(), value: "ssdp:byebye".to_owned() });
    headers.push(Header { name: "USN".to_owned(), value: service_description.usn_uri.clone() });
    proof {
        assert(headers_view(headers@) =~= byebye_model(service_description@, *ssdp_multicast_addr).headers);
    }
    render("NOTIFY * HTTP/1.1", headers)
}

/// Answer to an `M-SEARCH` request.
///
/// - `service_description` - the descriptive object of the answering
///   [`crate::service::Service`]
/// - `s` - the unique identifier of the requesting [`crate::client::Client`]
pub fn generate_ssdp_discover_answer(
    service_description: &ServiceDescription,
    s: String,
) -> (r: String)
    ensures
        r@ == render_message(answer_model(service_description@, s@)),
{
    let mut headers: Vec<Header> = Vec::new();
    headers.push(Header { name: "S".to_owned(), value: s });
    headers.push(Header { name: "Ext".to_owned(), value: "".to_owned() });
    let mut cache = "no-cache=\"Ext\", max-age=".to_owned();
    let age = u32_to_dec(service_description.expiration);
    cache.append(age.as_str());
    headers.push(Header { name: "Cache-Control".to_owned(), value: cache });
    headers.push(Header { name: "ST".to_owned(), value: service_description.service_type_uri.clone() });
    headers.push(Header { name: "USN".to_owned(), value: service_description.usn_uri.clone() });
    headers.push(
        Header {
            name: "AL".to_owned(),
            value: build_al_value(
                &service_description.service_type_uri,
                &service_description.location,
            ),
        },
    );
    let ghost sv = s@;
    proof {
        assert(headers_view(headers@) =~= answer_model(service_description@, sv).headers);
    }
    render("HTTP/1.1 200 OK", headers)
}

/// Generates an `M-SEARCH` request to find [`crate::service::Service`]s
/// within the given multicast network.
///
/// - `s` - the unique identifier of this [`crate::client::Client`], mostly a
///   UUID, e.g. `uuid:83760048-2d32-4e48-854f-f63a8fa9fd09`
/// - `st` - a name to search for; can be `ssdp:all` to find all services or
///   a more specific phrase like `my:service`
/// - `ssdp_multicast_addr` - the multicast network to announce this search in
pub fn generate_ssdp_discover(
    s: String,
    st: String,
    ssdp_multicast_addr: &MulticastAddr,
) -> (r: String)
    ensures
        r@ == render_message(search_model(s@, st@, *ssdp_multicast_addr)),
{
    let ghost sv = s@;
    let ghost stv = st@;
    let mut headers: Vec<Header> = Vec::new();
    headers.push(Header { name: "S".to_owned(), value: s });
    headers.push(Header { name: "Host".to_owned(), value: build_host_value(ssdp_multicast_addr) });
    headers.push(Header { name: "MAN".to_owned(), value: "\"ssdp:discover\"".to_owned() });
    headers.push(Header { name: "ST".to_owned(), value: st });
    headers.push(Header { name: "MX".to_owned(), value: "1".to_owned() });
    proof {
        assert(headers_view(headers@) =~= search_model(sv, stv, *ssdp_multicast_addr).headers);
    }
    render("M-SEARCH * HTTP/1.1", headers)
}

} // verus!
