//! An inspection of HTTP requests: the logic of a module that blocks TCP
//! packets to the usual web ports whose payload is an HTTP request with the
//! marks of an injection or a path traversal.

use crate::text::views;
use vstd::prelude::*;
use vstd::string::StringSliceAdditionalSpecFns;
use vstd::utf8::encode_utf8;

verus! {

/// The length of an Ethernet header.
pub const ETHERNET_LEN: usize = 14;

/// A payload longer than this is suspicious whatever it holds.
pub const MAX_PAYLOAD: usize = 4096;

/// Whether `needle` stands in `hay` at `at`.
pub open spec fn occurs_at(hay: Seq<u8>, needle: Seq<u8>, at: int) -> bool {
    0 <= at && at + needle.len() <= hay.len() && hay.subrange(at, at + needle.len()) == needle
}

/// Whether `needle` stands somewhere in `hay`.
pub open spec fn occurs(hay: Seq<u8>, needle: Seq<u8>) -> bool {
    exists|at: int| occurs_at(hay, needle, at)
}

/// Whether one of `needles`, as UTF-8, stands somewhere in `hay`.
pub open spec fn any_occurs(hay: Seq<u8>, needles: Seq<Seq<char>>) -> bool {
    exists|k: int| 0 <= k < needles.len() && occurs(hay, encode_utf8(#[trigger] needles[k]))
}

/// Whether `hay` starts with one of `prefixes`, as UTF-8.
pub open spec fn any_starts(hay: Seq<u8>, prefixes: Seq<Seq<char>>) -> bool {
    exists|k: int|
        0 <= k < prefixes.len() && occurs_at(hay, encode_utf8(#[trigger] prefixes[k]), 0)
}

/// The methods of HTTP, each with the space that follows it in a request line.
pub open spec fn http_methods() -> Seq<Seq<char>> {
    seq![
        "GET "@,
        "POST "@,
        "PUT "@,
        "DELETE "@,
        "HEAD "@,
        "OPTIONS "@,
        "CONNECT "@,
        "TRACE "@,
        "PATCH "@,
    ]
}

/// Marks of an SQL injection.
pub open spec fn sql_patterns() -> Seq<Seq<char>> {
    seq![
        "UNION SELECT"@,
        "OR 1=1"@,
        "' OR '"@,
        "DROP TABLE"@,
        "--"@,
        "/*"@,
        "*/"@,
        "EXEC("@,
        "EXECUTE("@,
        "xp_cmdshell"@,
    ]
}

/// Marks of cross-site scripting.
pub open spec fn xss_patterns() -> Seq<Seq<char>> {
    seq![
        "<script>"@,
        "javascript:"@,
        "onerror="@,
        "onload="@,
        "eval("@,
        "document.cookie"@,
        "alert("@,
        "String.fromCharCode("@,
    ]
}

/// Marks of a path traversal.
pub open spec fn traversal_patterns() -> Seq<Seq<char>> {
    seq!["../"@, "..\\"@, "/etc/passwd"@, "\\windows\\system32"@, "C:\\Windows"@]
}

/// Marks of a command injection.
pub open spec fn command_patterns() -> Seq<Seq<char>> {
    seq![";"@, "|"@, "&"@, "$("@, "`"@, "$()"@, "${"@, ">"@]
}

/// Whether a payload is suspicious: it is longer than 4096 bytes, or it
/// holds a mark of an SQL injection, of cross-site scripting, of a path
/// traversal or of a command injection.
pub open spec fn suspicious(payload: Seq<u8>) -> bool {
    ||| payload.len() > MAX_PAYLOAD
    ||| any_occurs(payload, sql_patterns())
    ||| any_occurs(payload, xss_patterns())
    ||| any_occurs(payload, traversal_patterns())
    ||| any_occurs(payload, command_patterns())
}

/// The number whose two bytes, highest first, are at `at` in `data`.
pub open spec fn be16_at(data: Seq<u8>, at: int) -> u16 {
    ((data[at] as u16) << 8) | (data[at + 1] as u16)
}

/// The source port, destination port and flags of the TCP header at
/// `offset` in `data`; none where `data` does not hold 20 bytes from there.
pub open spec fn tcp_fields(data: Seq<u8>, offset: int) -> Option<(u16, u16, u8)> {
    if offset + 20 <= data.len() {
        Some((be16_at(data, offset), be16_at(data, offset + 2), data[offset + 13]))
    } else {
        None
    }
}

/// Whether `port` is one that web servers use.
pub open spec fn is_web_port(port: u16) -> bool {
    port == 80 || port == 8080 || port == 443 || port == 8443
}

/// Where the TCP header starts in the frame `data`, by the length that the
/// IPv4 header gives for itself.
pub open spec fn tcp_offset(data: Seq<u8>) -> int {
    14 + ((data[14] & 0x0f) as int) * 4
}

/// Where the payload starts in the frame `data`, by the length that the TCP
/// header gives for itself.
pub open spec fn payload_offset(data: Seq<u8>) -> int {
    tcp_offset(data) + (((data[tcp_offset(data) + 12] >> 4) & 0x0f) as int) * 4
}

/// Whether the frame `data` is to be blocked: it is an IPv4 frame of at
/// least 34 bytes that carries TCP to a web port, and its payload starts
/// with an HTTP method and is suspicious.
pub open spec fn blocked(data: Seq<u8>) -> bool {
    &&& data.len() >= 34
    &&& be16_at(data, 12) == 0x0800
    &&& data[23] == 6
    &&& tcp_fields(data, tcp_offset(data)) matches Some((_, port, _))
    &&& is_web_port(port)
    &&& data.len() > payload_offset(data)
    &&& any_starts(data.skip(payload_offset(data)), http_methods())
    &&& suspicious(data.skip(payload_offset(data)))
}

/// Whether `needle` stands in `hay` at `at`.
pub fn found_at(hay: &[u8], needle: &[u8], at: usize) -> (r: bool)
    ensures
        r == occurs_at(hay@, needle@, at as int),
{
    if at > hay.len() || needle.len() > hay.len() - at {
        return false;
    }
    let mut i: usize = 0;
    while i < needle.len()
        invariant
            i <= needle.len(),
            at + needle.len() <= hay.len(),
            forall|j: int| 0 <= j < i ==> hay@[at + j] == needle@[j],
        decreases needle.len() - i,
    {
        if hay[at + i] != needle[i] {
            assert(hay@.subrange(at as int, at + needle.len())[i as int] != needle@[i as int]);
            return false;
        }
        i += 1;
    }
    assert(hay@.subrange(at as int, at + needle.len()) =~= needle@);
    true
}

/// Whether `needle` stands somewhere in `hay`.
pub fn contains(hay: &[u8], needle: &[u8]) -> (r: bool)
    ensures
        r == occurs(hay@, needle@),
{
    if needle.len() > hay.len() {
        return false;
    }
    let last: usize = hay.len() - needle.len();
    let mut at: usize = 0;
    loop
        invariant
            at <= last,
            last == hay.len() - needle.len(),
            forall|j: int| 0 <= j < at ==> !occurs_at(hay@, needle@, j),
        decreases last - at,
    {
        if found_at(hay, needle, at) {
            return true;
        }
        if at == last {
            return false;
        }
        at += 1;
    }
}

/// Whether one of `needles` stands somewhere in `hay`.
pub fn contains_any(hay: &[u8], needles: &Vec<&str>) -> (r: bool)
    ensures
        r == any_occurs(hay@, views(needles@)),
{
    let mut k: usize = 0;
    while k < needles.len()
        invariant
            k <= needles.len(),
            forall|j: int| 0 <= j < k ==> !occurs(hay@, encode_utf8(#[trigger] views(needles@)[j])),
        decreases needles.len() - k,
    {
        if contains(hay, needles[k].as_bytes()) {
            assert(occurs(hay@, encode_utf8(views(needles@)[k as int])));
            return true;
        }
        k += 1;
    }
    false
}

/// Whether `hay` starts with one of `prefixes`.
pub fn starts_with_any(hay: &[u8], prefixes: &Vec<&str>) -> (r: bool)
    ensures
        r == any_starts(hay@, views(prefixes@)),
{
    let mut k: usize = 0;
    while k < prefixes.len()
        invariant
            k <= prefixes.len(),
            forall|j: int|
                0 <= j < k ==> !occurs_at(hay@, encode_utf8(#[trigger] views(prefixes@)[j]), 0),
        decreases prefixes.len() - k,
    {
        if found_at(hay, prefixes[k].as_bytes(), 0) {
            assert(occurs_at(hay@, encode_utf8(views(prefixes@)[k as int]), 0));
            return true;
        }
        k += 1;
    }
    false
}

/// The source port, destination port and flags of the TCP header at
/// `offset` in `data`.
pub fn parse_tcp_packet(data: &[u8], offset: usize) -> (r: Option<(u16, u16, u8)>)
    ensures
        r == tcp_fields(data@, offset as int),
{
    if offset > data.len() || data.len() - offset < 20 {
        return None;
    }
    let source_port = ((data[offset] as u16) << 8) | (data[offset + 1] as u16);
    let dest_port = ((data[offset + 2] as u16) << 8) | (data[offset + 3] as u16);
    let flags = data[offset + 13];
    Some((source_port, dest_port, flags))
}

/// Whether `payload` starts with an HTTP method and a space.
pub fn check_http_method(payload: &[u8]) -> (r: bool)
    ensures
        r == any_starts(payload@, http_methods()),
{
    let mut methods: Vec<&str> = Vec::new();
    methods.push("GET ");
    methods.push("POST ");
    methods.push("PUT ");
    methods.push("DELETE ");
    methods.push("HEAD ");
    methods.push("OPTIONS ");
    methods.push("CONNECT ");
    methods.push("TRACE ");
    methods.push("PATCH ");
    assert(views(methods@) =~= http_methods());
    starts_with_any(payload, &methods)
}

/// Whether `payload` is suspicious.
pub fn check_suspicious_http(payload: &[u8]) -> (r: bool)
    ensures
        r == suspicious(payload@),
{
    if payload.len() > MAX_PAYLOAD {
        return true;
    }
    let mut sql: Vec<&str> = Vec::new();
    sql.push("UNION SELECT");
    sql.push("OR 1=1");
    sql.push("' OR '");
    sql.push("DROP TABLE");
    sql.push("--");
    sql.push("/*");
    sql.push("*/");
    sql.push("EXEC(");
    sql.push("EXECUTE(");
    sql.push("xp_cmdshell");
    assert(views(sql@) =~= sql_patterns());
    if contains_any(payload, &sql) {
        return true;
    }
    let mut xss: Vec<&str> = Vec::new();
    xss.push("<script>");
    xss.push("javascript:");
    xss.push("onerror=");
    xss.push("onload=");
    xss.push("eval(");
    xss.push("document.cookie");
    xss.push("alert(");
    xss.push("String.fromCharCode(");
    assert(views(xss@) =~= xss_patterns());
    if contains_any(payload, &xss) {
        return true;
    }
    let mut traversal: Vec<&str> = Vec::new();
    traversal.push("../");
    traversal.push("..\\");
    traversal.push("/etc/passwd");
    traversal.push("\\windows\\system32");
    traversal.push("C:\\Windows");
    assert(views(traversal@) =~= traversal_patterns());
    if contains_any(payload, &traversal) {
        return true;
    }
    let mut command: Vec<&str> = Vec::new();
    command.push(";");
    command.push("|");
    command.push("&");
    command.push("$(");
    command.push("`");
    command.push("$()");
    command.push("${");
    command.push(">");
    assert(views(command@) =~= command_patterns());
    contains_any(payload, &command)
}

/// The verdict on the frame `data`: 1 to block it, 0 to let it through.
pub fn inspect_packet(data: &[u8]) -> (r: i32)
    ensures
        r == if blocked(data@) {
            1i32
        } else {
            0i32
        },
{
    if data.len() < 34 {
        return 0;
    }
    let eth_type = ((data[12] as u16) << 8) | (data[13] as u16);
    if eth_type != 0x0800 {
        return 0;
    }
    let first: u8 = data[14];
    let ihl: u8 = first & 0x0f;
    assert(ihl <= 15) by (bit_vector)
        requires
            ihl == first & 0x0f,
    ;
    let ip_header_len: usize = (ihl as usize) * 4;
    if data[23] != 6 {
        return 0;
    }
    let tcp_at: usize = ETHERNET_LEN + ip_header_len;
    match parse_tcp_packet(data, tcp_at) {
        None => 0,
        Some((_, dest_port, _)) => {
            if !(dest_port == 80 || dest_port == 8080 || dest_port == 443 || dest_port == 8443) {
                return 0;
            }
            let lengths: u8 = data[tcp_at + 12];
            let nibble: u8 = (lengths >> 4) & 0x0f;
            assert(nibble <= 15) by (bit_vector)
                requires
                    nibble == (lengths >> 4) & 0x0f,
            ;
            let tcp_header_len: usize = (nibble as usize) * 4;
            let payload_at: usize = tcp_at + tcp_header_len;
            if data.len() <= payload_at {
                return 0;
            }
            let payload = slice_from(data, payload_at);
            if check_http_method(payload) && check_suspicious_http(payload) {
                1
            } else {
                0
            }
        },
    }
}

/// The part of `data` from `from` on.
pub fn slice_from(data: &[u8], from: usize) -> (r: &[u8])
    requires
        from <= data.len(),
    ensures
        r@ == data@.skip(from as int),
{
    vstd::slice::slice_subrange(data, from, data.len())
}

} // verus!
