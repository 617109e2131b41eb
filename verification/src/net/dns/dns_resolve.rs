//! Building DNS queries, reading DNS replies, and the decisions of resolving a name.
use vstd::prelude::*;

use super::message::{
    op_code_value, record_class_value, record_type_value, response_code_value, DNSAnswer,
    DNSAnswerView, DNSFlagsHeader, DNSHeaders, DNSMessage, DNSMessageView, DNSQuestion,
    DNSQuestionView, DNSRecord, DNSRecordView, Ipv4Address, OpCode, RecordClass, RecordData,
    RecordDataView, RecordType, ResponseCode,
};
use crate::bits::{
    be_i32, bit_set, get_bit, pow2_u8, nibble_at, offset_bit_merge, u4_from_u8, u8_arr_to_u16, u8_to_i32,
    Bit, U4BitOffset,
};
use crate::outcome::{error_message_is, Outcome};
use crate::text::{format_radix, radix_digits, utf8_error_text, utf8_to_str};
use vstd::string::{StringExecFns, StringSliceAdditionalSpecFns};
use vstd::utf8::{decode_first_scalar, decode_utf8, encode_utf8, pop_first_scalar, valid_utf8};

verus! {

/// The byte that separates the labels of a domain name in text.
pub open spec fn dot_byte() -> u8 {
    46u8
}

/// The index of the first `.` in `s`, or -1 when there is none.
pub open spec fn first_dot(s: Seq<u8>) -> int
    decreases s.len(),
{
    if s.len() == 0 {
        -1
    } else if s[0] == dot_byte() {
        0
    } else {
        let r = first_dot(s.drop_first());
        if r < 0 {
            -1
        } else {
            r + 1
        }
    }
}

/// The wire form of the labels of a dotted name, without the closing zero: each label
/// (the text between dots) becomes its length, as one byte, followed by its bytes.
pub open spec fn encode_labels(name: Seq<u8>) -> Seq<u8>
    decreases name.len(),
{
    let k = first_dot(name);
    if 0 <= k < name.len() {
        seq![k as u8] + name.take(k) + encode_labels(name.skip(k + 1))
    } else {
        seq![name.len() as u8] + name
    }
}

/// The wire form of a dotted name: its labels, then the zero length of the root label.
pub open spec fn encode_name(name: Seq<u8>) -> Seq<u8> {
    encode_labels(name) + seq![0u8]
}

proof fn lemma_first_dot(s: Seq<u8>, k: int)
    requires
        0 <= k <= s.len(),
        forall|j: int| 0 <= j < k ==> s[j] != dot_byte(),
        k < s.len() ==> s[k] == dot_byte(),
    ensures
        first_dot(s) == (if k < s.len() { k } else { -1 }),
    decreases k,
{
    if k > 0 {
        assert forall|j: int| 0 <= j < k - 1 implies s.drop_first()[j] != dot_byte() by {
            assert(s.drop_first()[j] == s[j + 1]);
        }
        lemma_first_dot(s.drop_first(), k - 1);
    }
}

proof fn lemma_first_dot_range(s: Seq<u8>)
    ensures
        -1 <= first_dot(s) < s.len(),
        0 <= first_dot(s) ==> s[first_dot(s)] == dot_byte(),
    decreases s.len(),
{
    if s.len() > 0 && s[0] != dot_byte() {
        lemma_first_dot_range(s.drop_first());
    }
}

/// The first flags byte of a header: QR, the four-bit opcode, AA, TC and RD.
pub open spec fn flags_byte_1(qr: bool, opcode: u8, aa: bool, tc: bool, rd: bool) -> u8 {
    ((if qr { 128u8 } else { 0u8 }) | ((opcode << 3u8) as u8) | (if aa { 4u8 } else { 0u8 }) | (
    if tc { 2u8 } else { 0u8 }) | (if rd { 1u8 } else { 0u8 })) as u8
}

/// The second flags byte of a header: RA, three zero bits and the four-bit response code.
pub open spec fn flags_byte_2(ra: bool, rcode: u8) -> u8 {
    ((if ra { 128u8 } else { 0u8 }) | rcode) as u8
}

pub fn pack_flags_byte_1(qr: bool, opcode: u8, aa: bool, tc: bool, rd: bool) -> (ret: u8)
    ensures
        ret == flags_byte_1(qr, opcode, aa, tc, rd),
        opcode < 16 ==> ret == (if qr { 128int } else { 0 }) + opcode * 8 + (if aa {
            4int
        } else {
            0
        }) + (if tc { 2int } else { 0 }) + (if rd { 1int } else { 0 }),
{
    let q: u8 = if qr { 128u8 } else { 0u8 };
    let a: u8 = if aa { 4u8 } else { 0u8 };
    let t: u8 = if tc { 2u8 } else { 0u8 };
    let r: u8 = if rd { 1u8 } else { 0u8 };
    let ret = q | (opcode << 3u8) | a | t | r;
    proof {
        assert((q == 128u8 || q == 0u8) && (a == 4u8 || a == 0u8) && (t == 2u8 || t == 0u8) && (r
            == 1u8 || r == 0u8) && opcode < 16 ==> (q | ((opcode << 3u8) as u8) | a | t | r) as u8
            == q + opcode * 8 + a + t + r) by (bit_vector);
    }
    ret
}

pub fn pack_flags_byte_2(ra: bool, rcode: u8) -> (ret: u8)
    ensures
        ret == flags_byte_2(ra, rcode),
        rcode < 16 ==> ret == (if ra { 128int } else { 0 }) + rcode,
{
    let q: u8 = if ra { 128u8 } else { 0u8 };
    // Middle 4 bits are 0 and rcode should have top-4 bits empty
    let ret = q | rcode;
    proof {
        assert((q == 128u8 || q == 0u8) && rcode < 16 ==> (q | rcode) as u8 == q + rcode)
            by (bit_vector);
    }
    ret
}

/// The twelve bytes of a DNS header, every count in network order.
pub open spec fn header_bytes(h: DNSHeaders) -> Seq<u8> {
    seq![
        (h.transaction_id / 256) as u8,
        (h.transaction_id % 256) as u8,
        flags_byte_1(
            h.flags.is_reply,
            op_code_value(h.flags.op_code),
            h.flags.is_authoritative_answer,
            h.flags.is_truncated,
            h.flags.recursion_desired,
        ),
        flags_byte_2(h.flags.recursion_available, response_code_value(h.flags.response_code)),
        (h.num_of_questions / 256) as u8,
        (h.num_of_questions % 256) as u8,
        (h.num_of_answers / 256) as u8,
        (h.num_of_answers % 256) as u8,
        (h.num_of_authority_resource_records / 256) as u8,
        (h.num_of_authority_resource_records % 256) as u8,
        (h.num_of_additional_records / 256) as u8,
        (h.num_of_additional_records % 256) as u8,
    ]
}

/// The headers of a recursive query for one question.
pub open spec fn query_headers(transaction_id: u16) -> DNSHeaders {
    DNSHeaders {
        transaction_id,
        flags: DNSFlagsHeader {
            is_reply: false,
            op_code: OpCode::Query,
            is_authoritative_answer: false,
            is_truncated: false,
            recursion_desired: true,
            recursion_available: false,
            response_code: ResponseCode::NoError,
        },
        num_of_questions: 1,
        num_of_answers: 0,
        num_of_authority_resource_records: 0,
        num_of_additional_records: 0,
    }
}

/// The bytes of a query for the A record, in the Internet class, of `name` (its UTF-8 bytes).
pub open spec fn query_bytes(name: Seq<u8>, transaction_id: u16) -> Seq<u8> {
    header_bytes(query_headers(transaction_id)) + encode_name(name) + seq![
        (record_type_value(RecordType::A) / 256) as u8,
        (record_type_value(RecordType::A) % 256) as u8,
        (record_class_value(RecordClass::Internet) / 256) as u8,
        (record_class_value(RecordClass::Internet) % 256) as u8,
    ]
}

fn push_u16(buf: &mut Vec<u8>, v: u16)
    ensures
        final(buf)@ == old(buf)@ + seq![(v / 256) as u8, (v % 256) as u8],
{
    buf.push((v / 256) as u8);
    buf.push((v % 256) as u8);
}

/// Serializes the twelve bytes of a header.
pub fn write_headers(headers: &DNSHeaders) -> (ret: Vec<u8>)
    ensures
        ret@ == header_bytes(*headers),
{
    let mut ret: Vec<u8> = Vec::new();
    push_u16(&mut ret, headers.transaction_id);
    let flags = headers.flags;
    ret.push(
        pack_flags_byte_1(
            flags.is_reply,
            flags.op_code.into_u8(),
            flags.is_authoritative_answer,
            flags.is_truncated,
            flags.recursion_desired,
        ),
    );
    ret.push(pack_flags_byte_2(flags.recursion_available, flags.response_code.into_u8()));
    push_u16(&mut ret, headers.num_of_questions);
    push_u16(&mut ret, headers.num_of_answers);
    push_u16(&mut ret, headers.num_of_authority_resource_records);
    push_u16(&mut ret, headers.num_of_additional_records);
    assert(ret@ =~= header_bytes(*headers));
    ret
}

/// Appends the wire form of a dotted name (given as its bytes) to `buf`.
pub fn write_name(buf: &mut Vec<u8>, name: &[u8])
    ensures
        final(buf)@ == old(buf)@ + encode_name(name@),
{
    let ghost whole = name@;
    assert(whole.skip(0) =~= whole);
    let mut start: usize = 0;
    let mut i: usize = 0;
    let n = name.len();
    while i < n
        invariant
            n == name@.len(),
            whole == name@,
            start <= i <= n,
            forall|j: int| start <= j < i ==> name@[j] != dot_byte(),
            old(buf)@ + encode_labels(whole) == buf@ + encode_labels(whole.skip(start as int)),
        decreases n - i,
    {
        if name[i] == 46u8 {
            proof {
                let s = whole.skip(start as int);
                lemma_first_dot(s, (i - start) as int);
                assert(s.take((i - start) as int) =~= whole.subrange(start as int, i as int));
                assert(s.skip((i - start) + 1) =~= whole.skip(i + 1));
            }
            let ghost before = buf@;
            buf.push(#[verifier::truncate] ((i - start) as u8));
            let mut j = start;
            while j < i
                invariant
                    start <= j <= i < n,
                    n == name@.len(),
                    buf@ == before + seq![#[verifier::truncate] ((i - start) as u8)] + name@.subrange(
                        start as int,
                        j as int,
                    ),
                decreases i - j,
            {
                buf.push(name[j]);
                assert(name@.subrange(start as int, j + 1) =~= name@.subrange(start as int, j as int).push(name@[j as int]));
                j = j + 1;
            }
            assert(buf@ =~= before + (seq![#[verifier::truncate] ((i - start) as u8)] + name@.subrange(start as int, i as int)));
            start = i + 1;
        }
        i = i + 1;
    }
    proof {
        let s = whole.skip(start as int);
        lemma_first_dot(s, (n - start) as int);
        assert(s =~= whole.subrange(start as int, n as int));
    }
    let ghost before = buf@;
    buf.push(#[verifier::truncate] ((n - start) as u8));
    let mut j = start;
    while j < n
        invariant
            start <= j <= n,
            n == name@.len(),
            buf@ == before + seq![#[verifier::truncate] ((n - start) as u8)] + name@.subrange(
                start as int,
                j as int,
            ),
        decreases n - j,
    {
        buf.push(name[j]);
        assert(name@.subrange(start as int, j + 1) =~= name@.subrange(start as int, j as int).push(name@[j as int]));
        j = j + 1;
    }
    assert(buf@ =~= before + (seq![#[verifier::truncate] ((n - start) as u8)] + name@.subrange(start as int, n as int)));
    buf.push(0u8);
    assert(buf@ =~= old(buf)@ + encode_name(name@));
}


/// Builds the bytes of a recursive query for the A record of `domain_name`, in the Internet
/// class, with the given transaction id.
pub fn build_resolve_bytes(domain_name: &str, transaction_id: u16) -> (ret: Vec<u8>)
    ensures
        ret@ == query_bytes(domain_name.spec_bytes(), transaction_id),
{
    let headers = DNSHeaders {
        transaction_id,
        flags: DNSFlagsHeader {
            is_reply: false,
            op_code: OpCode::Query,
            is_authoritative_answer: false,
            is_truncated: false,
            recursion_desired: true,
            recursion_available: false,
            response_code: ResponseCode::NoError,
        },
        num_of_questions: 1,
        num_of_answers: 0,
        num_of_authority_resource_records: 0,
        num_of_additional_records: 0,
    };
    let mut ret = write_headers(&headers);
    write_name(&mut ret, domain_name.as_bytes());
    push_u16(&mut ret, RecordType::A.as_u16());
    push_u16(&mut ret, RecordClass::Internet.as_u16());
    assert(ret@ =~= query_bytes(domain_name.spec_bytes(), transaction_id));
    ret
}

/// The big-endian `u16` at `off`.
pub open spec fn be_u16_at(msg: Seq<u8>, off: int) -> int {
    msg[off] as int * 256 + msg[off + 1] as int
}

/// The record type with the given code (meaningful for codes 1 to 16).
pub open spec fn record_type_of(v: int) -> RecordType {
    if v == 1 {
        RecordType::A
    } else if v == 2 {
        RecordType::NameServer
    } else if v == 3 {
        RecordType::MailDestination
    } else if v == 4 {
        RecordType::MailForwarder
    } else if v == 5 {
        RecordType::CanonicalName
    } else if v == 6 {
        RecordType::StartOfZoneOfAuthority
    } else if v == 7 {
        RecordType::MailboxDomainName
    } else if v == 8 {
        RecordType::MailGroupMember
    } else if v == 9 {
        RecordType::MailRenameDomainName
    } else if v == 10 {
        RecordType::Null
    } else if v == 11 {
        RecordType::WellKnownServiceDescription
    } else if v == 12 {
        RecordType::Pointer
    } else if v == 13 {
        RecordType::HostInfo
    } else if v == 14 {
        RecordType::MailboxInfo
    } else if v == 15 {
        RecordType::MailExchange
    } else {
        RecordType::Text
    }
}

/// The record class with the given code (meaningful for codes 1 to 4).
pub open spec fn record_class_of(v: int) -> RecordClass {
    if v == 1 {
        RecordClass::Internet
    } else if v == 2 {
        RecordClass::CSNET
    } else if v == 3 {
        RecordClass::Chaos
    } else {
        RecordClass::Hesiod
    }
}

/// The operation with the given code (meaningful for codes 0 to 2).
pub open spec fn op_code_of(v: int) -> OpCode {
    if v == 0 {
        OpCode::Query
    } else if v == 1 {
        OpCode::InverseQuery
    } else {
        OpCode::Status
    }
}

/// The response with the given code (meaningful for codes 0 to 5).
pub open spec fn response_code_of(v: int) -> ResponseCode {
    if v == 0 {
        ResponseCode::NoError
    } else if v == 1 {
        ResponseCode::FormatError
    } else if v == 2 {
        ResponseCode::ServerError
    } else if v == 3 {
        ResponseCode::NameError
    } else if v == 4 {
        ResponseCode::NotImplemented
    } else {
        ResponseCode::Refused
    }
}

/// Reads a domain name at `off`, following compression pointers, with at most `fuel`
/// nested reads. A label is its length byte (top two bits clear) and its bytes; two bytes
/// whose top two bits are set point at another name; a zero byte ends the name. The text is
/// each label followed by a dot; the offset is where the name ends at `off`.
pub open spec fn domain_at(msg: Seq<u8>, off: int, fuel: nat) -> Outcome<(Seq<char>, int)>
    decreases fuel,
{
    if fuel == 0 || off < 0 || off >= msg.len() {
        Outcome::Crash
    } else if msg[off] == 0 {
        Outcome::Value((Seq::empty(), off + 1))
    } else if off + 1 >= msg.len() {
        Outcome::Crash
    } else {
        let first = msg[off];
        let second = msg[off + 1];
        if bit_set(first, 0) && bit_set(first, 1) {
            let pointer = (first as int % 64) * 256 + second as int;
            match domain_at(msg, pointer, (fuel - 1) as nat) {
                Outcome::Value((name, _)) => Outcome::Value((name, off + 2)),
                Outcome::Error => Outcome::Error,
                Outcome::Crash => Outcome::Crash,
            }
        } else if !bit_set(first, 0) && !bit_set(first, 1) {
            let len = first as int;
            if off + 1 + len > msg.len() {
                Outcome::Crash
            } else {
                let label = msg.subrange(off + 1, off + 1 + len);
                if !valid_utf8(label) {
                    Outcome::Error
                } else {
                    match domain_at(msg, off + 1 + len, (fuel - 1) as nat) {
                        Outcome::Value((rest, next)) => Outcome::Value(
                            (decode_utf8(label) + seq!['.'] + rest, next),
                        ),
                        Outcome::Error => Outcome::Error,
                        Outcome::Crash => Outcome::Crash,
                    }
                }
            }
        } else {
            Outcome::Error
        }
    }
}

/// The message of the error that reading the name at `off` ends in: the UTF-8 decoder's for
/// a label that is not UTF-8, or one for an identifier whose two high bits are `01` or `10`.
/// `None` where the reading does not end in an error.
pub open spec fn domain_error_text(msg: Seq<u8>, off: int, fuel: nat) -> Option<Seq<char>>
    decreases fuel,
{
    if fuel == 0 || off < 0 || off >= msg.len() || msg[off] == 0 || off + 1 >= msg.len() {
        None
    } else {
        let first = msg[off];
        let second = msg[off + 1];
        if bit_set(first, 0) && bit_set(first, 1) {
            domain_error_text(msg, (first as int % 64) * 256 + second as int, (fuel - 1) as nat)
        } else if !bit_set(first, 0) && !bit_set(first, 1) {
            let len = first as int;
            if off + 1 + len > msg.len() {
                None
            } else if !valid_utf8(msg.subrange(off + 1, off + 1 + len)) {
                Some(utf8_error_text(msg.subrange(off + 1, off + 1 + len)))
            } else {
                domain_error_text(msg, off + 1 + len, (fuel - 1) as nat)
            }
        } else {
            Some("Unsupported domain label identifier"@)
        }
    }
}

/// Whether an error result carries the message that the reading decides, if it decides one.
pub open spec fn error_text_agrees(res: Option<Result<(String, usize), String>>, t: Option<Seq<char>>) -> bool {
    match (res, t) {
        (Some(Err(e)), Some(t)) => e@ == t,
        _ => true,
    }
}

/// The domain name at `off`. Every nested read stands at a different offset inside the
/// message, so `msg.len()` nested reads are all that a name that can be read at all needs.
pub open spec fn domain_name_at(msg: Seq<u8>, off: int) -> Outcome<(Seq<char>, int)> {
    domain_at(msg, off, msg.len())
}

/// Whether an executable result agrees with a spec outcome over a name and an offset.
pub open spec fn agrees_name(res: Option<Result<(String, usize), String>>, o: Outcome<(Seq<char>, int)>) -> bool {
    match res {
        None => o is Crash,
        Some(Err(_)) => o is Error,
        Some(Ok((name, next))) => o == Outcome::Value((name@, next as int)),
    }
}

fn compute_domain_fuel(message: &[u8], offset: usize, fuel: usize) -> (res: Option<
    Result<(String, usize), String>,
>)
    ensures
        agrees_name(res, domain_at(message@, offset as int, fuel as nat)),
        error_text_agrees(res, domain_error_text(message@, offset as int, fuel as nat)),
    decreases fuel,
{
    if fuel == 0 || offset >= message.len() {
        return None;
    }
    if message[offset] == 0 {
        return Some(Ok((String::new(), offset + 1)));
    }
    if offset + 1 >= message.len() {
        return None;
    }
    let first_byte = message[offset];
    let second_byte = message[offset + 1];
    let first_bit = get_bit(first_byte, Bit::Zero);
    let second_bit = get_bit(first_byte, Bit::One);

    if first_bit && second_bit {
        let pointer = offset_bit_merge(first_byte, Bit::Two, second_byte) as usize;
        match compute_domain_fuel(message, pointer, fuel - 1) {
            None => None,
            Some(Err(e)) => Some(Err(e)),
            Some(Ok((name, _))) => Some(Ok((name, offset + 2))),
        }
    } else if !first_bit && !second_bit {
        let len = first_byte as usize;
        if len > message.len() - offset - 1 {
            return None;
        }
        let label = &message[offset + 1..offset + 1 + len];
        assert(label@ == message@.subrange(offset + 1, offset + 1 + len));
        let cur_value = match utf8_to_str(label) {
            Ok(s) => s,
            Err(e) => return Some(Err(e)),
        };
        match compute_domain_fuel(message, offset + 1 + len, fuel - 1) {
            None => None,
            Some(Err(e)) => Some(Err(e)),
            Some(Ok((rest, next))) => {
                let mut value = String::from_str(cur_value);
                value.append(".");
                proof {
                    reveal_strlit(".");
                }
                value.append(rest.as_str());
                assert(value@ == decode_utf8(label@) + seq!['.'] + rest@);
                Some(Ok((value, next)))
            },
        }
    } else {
        Some(Err(String::from_str("Unsupported domain label identifier")))
    }
}

/// Reads the domain name at `offset`: returns it (each label followed by a dot) and the
/// offset just past it; an invalid label identifier or a label that is not UTF-8 is an error.
pub fn compute_domain(message: &[u8], offset: usize) -> (res: Result<(String, usize), String>)
    requires
        !(domain_name_at(message@, offset as int) is Crash),
    ensures
        agrees_name(Some(res), domain_name_at(message@, offset as int)),
        error_text_agrees(Some(res), domain_error_text(message@, offset as int, message@.len())),
{
    match compute_domain_fuel(message, offset, message.len()) {
        Some(r) => r,
        None => Err(String::new()),
    }
}


/// The labels of a name written without compression at `off`, joined by dots, and the
/// offset past its closing zero byte. Labels that this reading meets are never empty.
pub open spec fn name_bytes_at(msg: Seq<u8>, off: int) -> Option<(Seq<u8>, int)>
    decreases msg.len() - off,
{
    if off < 0 || off >= msg.len() {
        None
    } else if msg[off] == 0 {
        Some((Seq::empty(), off + 1))
    } else {
        let start = off + 1;
        let end = start + msg[off] as int;
        if end > msg.len() {
            None
        } else {
            match name_bytes_at(msg, end) {
                Some((rest, next)) => Some(
                    (
                        if rest.len() == 0 {
                            msg.subrange(start, end)
                        } else {
                            msg.subrange(start, end) + seq![dot_byte()] + rest
                        },
                        next,
                    ),
                ),
                None => None,
            }
        }
    }
}

/// Reads a question record at `off`: its name (as uncompressed labels), its type and its class.
pub open spec fn question_at(msg: Seq<u8>, off: int) -> Outcome<(DNSQuestionView, int)> {
    match name_bytes_at(msg, off) {
        None => Outcome::Crash,
        Some((name, o)) => if !valid_utf8(name) {
            Outcome::Error
        } else if o + 1 >= msg.len() {
            Outcome::Crash
        } else if !(1 <= be_u16_at(msg, o) <= 16) {
            Outcome::Error
        } else if o + 3 >= msg.len() {
            Outcome::Crash
        } else if !(1 <= be_u16_at(msg, o + 2) <= 4) {
            Outcome::Error
        } else {
            Outcome::Value(
                (
                    DNSQuestionView {
                        domain_name: decode_utf8(name),
                        record_type: record_type_of(be_u16_at(msg, o)),
                        class: record_class_of(be_u16_at(msg, o + 2)),
                    },
                    o + 4,
                ),
            )
        },
    }
}

/// Puts `prefix` in front of the records that an outcome holds.
pub open spec fn prepend_records(
    prefix: Seq<DNSRecordView>,
    o: Outcome<(Seq<DNSRecordView>, int)>,
) -> Outcome<(Seq<DNSRecordView>, int)> {
    match o {
        Outcome::Value((rs, next)) => Outcome::Value((prefix + rs, next)),
        Outcome::Error => Outcome::Error,
        Outcome::Crash => Outcome::Crash,
    }
}

/// Reads `n` question records, one after the other, from `off`.
pub open spec fn questions_at(msg: Seq<u8>, off: int, n: nat) -> Outcome<(Seq<DNSRecordView>, int)>
    decreases n,
{
    if n == 0 {
        Outcome::Value((Seq::empty(), off))
    } else {
        match question_at(msg, off) {
            Outcome::Value((q, o)) => prepend_records(
                seq![DNSRecordView::Question(q)],
                questions_at(msg, o, (n - 1) as nat),
            ),
            Outcome::Error => Outcome::Error,
            Outcome::Crash => Outcome::Crash,
        }
    }
}

/// Reads the data of an answer record. For a canonical name, the name is read at `after`,
/// the offset just past the record's data.
pub open spec fn rdata_of(t: RecordType, bytes: Seq<u8>, msg: Seq<u8>, after: int) -> Outcome<
    RecordDataView,
> {
    match t {
        RecordType::A => if bytes.len() != 4 {
            Outcome::Error
        } else {
            Outcome::Value(RecordDataView::A(Ipv4Address(bytes[0], bytes[1], bytes[2], bytes[3])))
        },
        RecordType::CanonicalName => match domain_name_at(msg, after) {
            Outcome::Value((name, _)) => Outcome::Value(RecordDataView::CanonicalName(name)),
            Outcome::Error => Outcome::Error,
            Outcome::Crash => Outcome::Crash,
        },
        _ => Outcome::Error,
    }
}

/// Reads an answer record at `off`: its (possibly compressed) name, type, class, TTL,
/// data length and data.
pub open spec fn answer_at(msg: Seq<u8>, off: int) -> Outcome<(DNSAnswerView, int)> {
    match domain_name_at(msg, off) {
        Outcome::Error => Outcome::Error,
        Outcome::Crash => Outcome::Crash,
        Outcome::Value((name, o)) => if o + 1 >= msg.len() {
            Outcome::Crash
        } else if !(1 <= be_u16_at(msg, o) <= 16) {
            Outcome::Error
        } else if o + 3 >= msg.len() {
            Outcome::Crash
        } else if !(1 <= be_u16_at(msg, o + 2) <= 4) {
            Outcome::Error
        } else if o + 9 >= msg.len() {
            Outcome::Crash
        } else {
            let t = record_type_of(be_u16_at(msg, o));
            let data_start = o + 10;
            let data_end = data_start + be_u16_at(msg, o + 8);
            if data_end > msg.len() {
                Outcome::Crash
            } else {
                match rdata_of(t, msg.subrange(data_start, data_end), msg, data_end) {
                    Outcome::Value(rdata) => Outcome::Value(
                        (
                            DNSAnswerView {
                                domain_name: name,
                                record_type: t,
                                class: record_class_of(be_u16_at(msg, o + 2)),
                                ttl: be_i32(msg[o + 4], msg[o + 5], msg[o + 6], msg[o + 7]) as i32,
                                rdata,
                            },
                            data_end,
                        ),
                    ),
                    Outcome::Error => Outcome::Error,
                    Outcome::Crash => Outcome::Crash,
                }
            }
        },
    }
}

/// Reads `n` answer records, one after the other, from `off`.
pub open spec fn answers_at(msg: Seq<u8>, off: int, n: nat) -> Outcome<(Seq<DNSRecordView>, int)>
    decreases n,
{
    if n == 0 {
        Outcome::Value((Seq::empty(), off))
    } else {
        match answer_at(msg, off) {
            Outcome::Value((a, o)) => prepend_records(
                seq![DNSRecordView::Answer(a)],
                answers_at(msg, o, (n - 1) as nat),
            ),
            Outcome::Error => Outcome::Error,
            Outcome::Crash => Outcome::Crash,
        }
    }
}

/// The header of a reply: the transaction id, the flags, then four counts. An unknown
/// opcode or response code, or a set bit among the three reserved ones, is refused.
pub open spec fn reply_headers(msg: Seq<u8>) -> Option<DNSHeaders> {
    let a = msg[2];
    let b = msg[3];
    if nibble_at(a, 1) > 2 || nibble_at(b, 4) > 5 || bit_set(b, 1) || bit_set(b, 2) || bit_set(b, 3) {
        None
    } else {
        Some(
            DNSHeaders {
                transaction_id: be_u16_at(msg, 0) as u16,
                flags: DNSFlagsHeader {
                    is_reply: bit_set(a, 0),
                    op_code: op_code_of(nibble_at(a, 1)),
                    is_authoritative_answer: bit_set(a, 5),
                    is_truncated: bit_set(a, 6),
                    recursion_desired: bit_set(a, 7),
                    recursion_available: bit_set(b, 0),
                    response_code: response_code_of(nibble_at(b, 4)),
                },
                num_of_questions: be_u16_at(msg, 4) as u16,
                num_of_answers: be_u16_at(msg, 6) as u16,
                num_of_authority_resource_records: be_u16_at(msg, 8) as u16,
                num_of_additional_records: be_u16_at(msg, 10) as u16,
            },
        )
    }
}

/// A whole reply: its header, then its questions, then its answers. Authority and
/// additional records are not read.
pub open spec fn dns_response(msg: Seq<u8>) -> Outcome<DNSMessageView> {
    if msg.len() < 12 {
        Outcome::Crash
    } else {
        match reply_headers(msg) {
            None => Outcome::Error,
            Some(h) => match questions_at(msg, 12, h.num_of_questions as nat) {
                Outcome::Value((qs, o)) => match answers_at(msg, o, h.num_of_answers as nat) {
                    Outcome::Value((ans, _)) => Outcome::Value(
                        DNSMessageView { headers: h, sections: qs + ans },
                    ),
                    Outcome::Error => Outcome::Error,
                    Outcome::Crash => Outcome::Crash,
                },
                Outcome::Error => Outcome::Error,
                Outcome::Crash => Outcome::Crash,
            },
        }
    }
}

/// The name of a record type, as its derived `Debug` writes it.
pub open spec fn record_type_name(t: RecordType) -> Seq<char> {
    match t {
        RecordType::A => "A"@,
        RecordType::NameServer => "NameServer"@,
        RecordType::MailDestination => "MailDestination"@,
        RecordType::MailForwarder => "MailForwarder"@,
        RecordType::CanonicalName => "CanonicalName"@,
        RecordType::StartOfZoneOfAuthority => "StartOfZoneOfAuthority"@,
        RecordType::MailboxDomainName => "MailboxDomainName"@,
        RecordType::MailGroupMember => "MailGroupMember"@,
        RecordType::MailRenameDomainName => "MailRenameDomainName"@,
        RecordType::Null => "Null"@,
        RecordType::WellKnownServiceDescription => "WellKnownServiceDescription"@,
        RecordType::Pointer => "Pointer"@,
        RecordType::HostInfo => "HostInfo"@,
        RecordType::MailboxInfo => "MailboxInfo"@,
        RecordType::MailExchange => "MailExchange"@,
        RecordType::Text => "Text"@,
    }
}

fn record_type_name_text(t: &RecordType) -> (r: &'static str)
    ensures
        r@ == record_type_name(*t),
{
    match t {
        RecordType::A => "A",
        RecordType::NameServer => "NameServer",
        RecordType::MailDestination => "MailDestination",
        RecordType::MailForwarder => "MailForwarder",
        RecordType::CanonicalName => "CanonicalName",
        RecordType::StartOfZoneOfAuthority => "StartOfZoneOfAuthority",
        RecordType::MailboxDomainName => "MailboxDomainName",
        RecordType::MailGroupMember => "MailGroupMember",
        RecordType::MailRenameDomainName => "MailRenameDomainName",
        RecordType::Null => "Null",
        RecordType::WellKnownServiceDescription => "WellKnownServiceDescription",
        RecordType::Pointer => "Pointer",
        RecordType::HostInfo => "HostInfo",
        RecordType::MailboxInfo => "MailboxInfo",
        RecordType::MailExchange => "MailExchange",
        RecordType::Text => "Text",
    }
}

/// The message of the error that reading the data of an answer ends in.
pub open spec fn rdata_error(t: RecordType, bytes: Seq<u8>, msg: Seq<u8>, after: int) -> Option<Seq<char>> {
    match t {
        RecordType::A => if bytes.len() != 4 {
            Some("Expected 4 bytes but got "@ + radix_digits(bytes.len(), 10))
        } else {
            None
        },
        RecordType::CanonicalName => domain_error_text(msg, after, msg.len()),
        _ => Some("Unsupported record type "@ + record_type_name(t)),
    }
}

/// The message of the error that reading a question at `off` ends in: the UTF-8 decoder's
/// for a name that is not UTF-8, or one for an unknown record type or class.
pub open spec fn question_error(msg: Seq<u8>, off: int) -> Option<Seq<char>> {
    match name_bytes_at(msg, off) {
        None => None,
        Some((name, o)) => if !valid_utf8(name) {
            Some(utf8_error_text(name))
        } else if o + 1 >= msg.len() {
            None
        } else if !(1 <= be_u16_at(msg, o) <= 16) {
            Some("Unsupported record type"@)
        } else if o + 3 >= msg.len() {
            None
        } else if !(1 <= be_u16_at(msg, o + 2) <= 4) {
            Some("Unsupported record class"@)
        } else {
            None
        },
    }
}

/// The message of the error that reading `n` questions from `off` ends in.
pub open spec fn questions_error(msg: Seq<u8>, off: int, n: nat) -> Option<Seq<char>>
    decreases n,
{
    if n == 0 {
        None
    } else {
        match question_at(msg, off) {
            Outcome::Value((_, o)) => questions_error(msg, o, (n - 1) as nat),
            _ => question_error(msg, off),
        }
    }
}

/// The message of the error that reading an answer at `off` ends in.
pub open spec fn answer_error(msg: Seq<u8>, off: int) -> Option<Seq<char>> {
    match domain_name_at(msg, off) {
        Outcome::Error => domain_error_text(msg, off, msg.len()),
        Outcome::Crash => None,
        Outcome::Value((_, o)) => if o + 1 >= msg.len() {
            None
        } else if !(1 <= be_u16_at(msg, o) <= 16) {
            Some("Unsupported record type"@)
        } else if o + 3 >= msg.len() {
            None
        } else if !(1 <= be_u16_at(msg, o + 2) <= 4) {
            Some("Unsupported record class"@)
        } else if o + 9 >= msg.len() {
            None
        } else {
            let data_start = o + 10;
            let data_end = data_start + be_u16_at(msg, o + 8);
            if data_end > msg.len() {
                None
            } else {
                rdata_error(
                    record_type_of(be_u16_at(msg, o)),
                    msg.subrange(data_start, data_end),
                    msg,
                    data_end,
                )
            }
        },
    }
}

/// The message of the error that reading `n` answers from `off` ends in.
pub open spec fn answers_error(msg: Seq<u8>, off: int, n: nat) -> Option<Seq<char>>
    decreases n,
{
    if n == 0 {
        None
    } else {
        match answer_at(msg, off) {
            Outcome::Value((_, o)) => answers_error(msg, o, (n - 1) as nat),
            _ => answer_error(msg, off),
        }
    }
}

/// The message of the error that reading a reply ends in: one for an unknown opcode or
/// response code or a set reserved bit, or the error of a question or an answer.
pub open spec fn response_error(msg: Seq<u8>) -> Option<Seq<char>> {
    if msg.len() < 12 {
        None
    } else if nibble_at(msg[2], 1) > 2 {
        Some("Unsupported opcode"@)
    } else if nibble_at(msg[3], 4) > 5 {
        Some("Unsupported response code"@)
    } else if bit_set(msg[3], 1) || bit_set(msg[3], 2) || bit_set(msg[3], 3) {
        Some("Invalid message. Non-zero bits found in reserved field of flag header"@)
    } else {
        match questions_at(msg, 12, be_u16_at(msg, 4) as nat) {
            Outcome::Value((_, o)) => answers_error(msg, o, be_u16_at(msg, 6) as nat),
            _ => questions_error(msg, 12, be_u16_at(msg, 4) as nat),
        }
    }
}

fn read_name_bytes(message: &[u8], offset: usize) -> (res: Option<(Vec<u8>, usize)>)
    ensures
        match res {
            None => name_bytes_at(message@, offset as int) is None,
            Some((name, next)) => name_bytes_at(message@, offset as int) == Some(
                (name@, next as int),
            ),
        },
    decreases message@.len() - offset,
{
    if offset >= message.len() {
        return None;
    }
    if message[offset] == 0 {
        return Some((Vec::new(), offset + 1));
    }
    let start = offset + 1;
    let len = message[offset] as usize;
    if len > message.len() - start {
        return None;
    }
    let end = start + len;
    match read_name_bytes(message, end) {
        None => None,
        Some((rest, next)) => {
            let mut name: Vec<u8> = Vec::new();
            name.extend_from_slice(&message[start..end]);
            if rest.len() > 0 {
                name.push(46u8);
                name.extend_from_slice(rest.as_slice());
            }
            assert(name@ =~= (if rest@.len() == 0 {
                message@.subrange(start as int, end as int)
            } else {
                message@.subrange(start as int, end as int) + seq![dot_byte()] + rest@
            }));
            Some((name, next))
        },
    }
}

/// Whether an executable result agrees with a spec outcome over a value and an offset.
pub open spec fn agrees_at<X: View>(res: Option<Result<(X, usize), String>>, o: Outcome<(X::V, int)>) -> bool {
    match res {
        None => o is Crash,
        Some(Err(_)) => o is Error,
        Some(Ok((x, next))) => o == Outcome::Value((x@, next as int)),
    }
}

fn parse_question(message: &[u8], offset: usize) -> (res: Option<Result<(DNSQuestion, usize), String>>)
    ensures
        agrees_at(res, question_at(message@, offset as int)),
        error_message_is(res, question_error(message@, offset as int)),
{
    let (name, o) = match read_name_bytes(message, offset) {
        None => return None,
        Some(r) => r,
    };
    let domain_name = match utf8_to_str(name.as_slice()) {
        Ok(s) => String::from_str(s),
        Err(e) => return Some(Err(e)),
    };
    if o >= message.len() - 1 {
        return None;
    }
    let record_type = match RecordType::try_from(u8_arr_to_u16(message[o], message[o + 1])) {
        Ok(t) => t,
        Err(e) => return Some(Err(String::from_str(e))),
    };
    if o + 2 >= message.len() - 1 {
        return None;
    }
    let class = match RecordClass::try_from(u8_arr_to_u16(message[o + 2], message[o + 3])) {
        Ok(c) => c,
        Err(e) => return Some(Err(String::from_str(e))),
    };
    proof {
        super::message::lemma_codes_round_trip(OpCode::Query, ResponseCode::NoError, class, record_type);
    }
    Some(Ok((DNSQuestion { domain_name, record_type, class }, o + 4)))
}


/// Whether an executable result agrees with a spec outcome over a value.
pub open spec fn agrees<X: View>(res: Option<Result<X, String>>, o: Outcome<X::V>) -> bool {
    match res {
        None => o is Crash,
        Some(Err(_)) => o is Error,
        Some(Ok(x)) => o == Outcome::Value(x@),
    }
}

fn parse_rdata(record_type: &RecordType, bytes: &[u8], message: &[u8], offset: usize) -> (res:
    Option<Result<RecordData, String>>)
    ensures
        agrees(res, rdata_of(*record_type, bytes@, message@, offset as int)),
        error_message_is(res, rdata_error(*record_type, bytes@, message@, offset as int)),
{
    match record_type {
        RecordType::A => {
            let bytes_len = bytes.len();
            if bytes_len != 4 {
                let mut message = String::from_str("Expected 4 bytes but got ");
                message.append(format_radix(bytes_len as u64, 10).as_str());
                Some(Err(message))
            } else {
                Some(Ok(RecordData::A(Ipv4Address(bytes[0], bytes[1], bytes[2], bytes[3]))))
            }
        },
        RecordType::CanonicalName => {
            match compute_domain_fuel(message, offset, message.len()) {
                None => None,
                Some(Err(e)) => Some(Err(e)),
                Some(Ok((domain, _offset))) => Some(Ok(RecordData::CanonicalName(domain))),
            }
        },
        _ => {
            let mut message = String::from_str("Unsupported record type ");
            message.append(record_type_name_text(record_type));
            Some(Err(message))
        },
    }
}

fn parse_answer(message: &[u8], offset: usize) -> (res: Option<Result<(DNSAnswer, usize), String>>)
    ensures
        agrees_at(res, answer_at(message@, offset as int)),
        error_message_is(res, answer_error(message@, offset as int)),
{
    let (domain_name, o) = match compute_domain_fuel(message, offset, message.len()) {
        None => return None,
        Some(Err(e)) => return Some(Err(e)),
        Some(Ok(r)) => r,
    };
    let len = message.len();
    if o >= len - 1 {
        return None;
    }
    let record_type = match RecordType::try_from(u8_arr_to_u16(message[o], message[o + 1])) {
        Ok(t) => t,
        Err(e) => return Some(Err(String::from_str(e))),
    };
    if o + 2 >= len - 1 {
        return None;
    }
    let class = match RecordClass::try_from(u8_arr_to_u16(message[o + 2], message[o + 3])) {
        Ok(c) => c,
        Err(e) => return Some(Err(String::from_str(e))),
    };
    if len < 10 || o >= len - 9 {
        return None;
    }
    let ttl = u8_to_i32(message[o + 4], message[o + 5], message[o + 6], message[o + 7]);
    let rdata_len = u8_arr_to_u16(message[o + 8], message[o + 9]) as usize;
    let data_start = o + 10;
    if rdata_len > len - data_start {
        return None;
    }
    let data_end = data_start + rdata_len;
    let rdata_bytes = &message[data_start..data_end];
    proof {
        super::message::lemma_codes_round_trip(OpCode::Query, ResponseCode::NoError, class, record_type);
    }
    let rdata = match parse_rdata(&record_type, rdata_bytes, message, data_end) {
        None => return None,
        Some(Err(e)) => return Some(Err(e)),
        Some(Ok(r)) => r,
    };
    Some(Ok((DNSAnswer { domain_name, record_type, class, ttl, rdata }, data_end)))
}

/// Whether an executable result agrees with a spec outcome over records and an offset.
pub open spec fn agrees_records(
    res: Option<Result<(Vec<DNSRecord>, usize), String>>,
    o: Outcome<(Seq<DNSRecordView>, int)>,
) -> bool {
    match res {
        None => o is Crash,
        Some(Err(_)) => o is Error,
        Some(Ok((rs, next))) => o == Outcome::Value(
            (rs@.map_values(|r: DNSRecord| r@), next as int),
        ),
    }
}

proof fn lemma_prepend_records_assoc(
    a: Seq<DNSRecordView>,
    b: Seq<DNSRecordView>,
    o: Outcome<(Seq<DNSRecordView>, int)>,
)
    ensures
        prepend_records(a, prepend_records(b, o)) == prepend_records(a + b, o),
{
    match o {
        Outcome::Value((rs, next)) => {
            assert(a + (b + rs) =~= (a + b) + rs);
        },
        _ => {},
    }
}

fn parse_questions(message: &[u8], offset: usize, count: u16) -> (res: Option<
    Result<(Vec<DNSRecord>, usize), String>,
>)
    ensures
        agrees_records(res, questions_at(message@, offset as int, count as nat)),
        error_message_is(res, questions_error(message@, offset as int, count as nat)),
{
    let mut sections: Vec<DNSRecord> = Vec::new();
    let mut o = offset;
    let mut i: u16 = 0;
    while i < count
        invariant
            i <= count,
            questions_at(message@, offset as int, count as nat) == prepend_records(
                sections@.map_values(|r: DNSRecord| r@),
                questions_at(message@, o as int, (count - i) as nat),
            ),
            questions_error(message@, offset as int, count as nat) == questions_error(
                message@,
                o as int,
                (count - i) as nat,
            ),
        decreases count - i,
    {
        let ghost before = sections@.map_values(|r: DNSRecord| r@);
        match parse_question(message, o) {
            None => {
                return None;
            },
            Some(Err(e)) => {
                return Some(Err(e));
            },
            Some(Ok((q, next))) => {
                let ghost qv = q@;
                sections.push(DNSRecord::Question(q));
                proof {
                    lemma_prepend_records_assoc(
                        before,
                        seq![DNSRecordView::Question(qv)],
                        questions_at(message@, next as int, (count - i - 1) as nat),
                    );
                    assert(sections@.map_values(|r: DNSRecord| r@) =~= before + seq![
                        DNSRecordView::Question(qv),
                    ]);
                }
                o = next;
            },
        }
        i = i + 1;
    }
    assert(sections@.map_values(|r: DNSRecord| r@) + Seq::<DNSRecordView>::empty() =~= sections@.map_values(|r: DNSRecord| r@));
    Some(Ok((sections, o)))
}

fn parse_answers(message: &[u8], offset: usize, count: u16) -> (res: Option<
    Result<(Vec<DNSRecord>, usize), String>,
>)
    ensures
        agrees_records(res, answers_at(message@, offset as int, count as nat)),
        error_message_is(res, answers_error(message@, offset as int, count as nat)),
{
    let mut sections: Vec<DNSRecord> = Vec::new();
    let mut o = offset;
    let mut i: u16 = 0;
    while i < count
        invariant
            i <= count,
            answers_at(message@, offset as int, count as nat) == prepend_records(
                sections@.map_values(|r: DNSRecord| r@),
                answers_at(message@, o as int, (count - i) as nat),
            ),
            answers_error(message@, offset as int, count as nat) == answers_error(
                message@,
                o as int,
                (count - i) as nat,
            ),
        decreases count - i,
    {
        let ghost before = sections@.map_values(|r: DNSRecord| r@);
        match parse_answer(message, o) {
            None => {
                return None;
            },
            Some(Err(e)) => {
                return Some(Err(e));
            },
            Some(Ok((a, next))) => {
                let ghost av = a@;
                sections.push(DNSRecord::Answer(a));
                proof {
                    lemma_prepend_records_assoc(
                        before,
                        seq![DNSRecordView::Answer(av)],
                        answers_at(message@, next as int, (count - i - 1) as nat),
                    );
                    assert(sections@.map_values(|r: DNSRecord| r@) =~= before + seq![
                        DNSRecordView::Answer(av),
                    ]);
                }
                o = next;
            },
        }
        i = i + 1;
    }
    assert(sections@.map_values(|r: DNSRecord| r@) + Seq::<DNSRecordView>::empty() =~= sections@.map_values(|r: DNSRecord| r@));
    Some(Ok((sections, o)))
}

/// Reads a DNS reply. `None` stands for the inputs on which reading panics or never
/// returns; otherwise the result agrees with `dns_response`.
pub fn parse_dns_response_checked(message: &[u8]) -> (res: Option<Result<DNSMessage, String>>)
    ensures
        agrees(res, dns_response(message@)),
        error_message_is(res, response_error(message@)),
{
    if message.len() < 12 {
        return None;
    }
    let transaction_id = u8_arr_to_u16(message[0], message[1]);
    let flags_a = message[2];
    let flags_b = message[3];
    let op_code = match OpCode::try_from(u4_from_u8(flags_a, U4BitOffset::One)) {
        Ok(op) => op,
        Err(e) => return Some(Err(String::from_str(e))),
    };
    let response_code = match ResponseCode::try_from(u4_from_u8(flags_b, U4BitOffset::Four)) {
        Ok(code) => code,
        Err(e) => return Some(Err(String::from_str(e))),
    };
    let flags = DNSFlagsHeader {
        is_reply: get_bit(flags_a, Bit::Zero),
        op_code,
        is_authoritative_answer: get_bit(flags_a, Bit::Five),
        is_truncated: get_bit(flags_a, Bit::Six),
        recursion_desired: get_bit(flags_a, Bit::Seven),
        recursion_available: get_bit(flags_b, Bit::Zero),
        response_code,
    };

    if get_bit(flags_b, Bit::One) || get_bit(flags_b, Bit::Two) || get_bit(flags_b, Bit::Three) {
        return Some(
            Err(
                String::from_str(
                    "Invalid message. Non-zero bits found in reserved field of flag header",
                ),
            ),
        );
    }

    let num_of_questions = u8_arr_to_u16(message[4], message[5]);
    let num_of_answers = u8_arr_to_u16(message[6], message[7]);
    let num_of_authority_resource_records = u8_arr_to_u16(message[8], message[9]);
    let num_of_additional_records = u8_arr_to_u16(message[10], message[11]);

    let headers = DNSHeaders {
        transaction_id,
        flags,
        num_of_questions,
        num_of_answers,
        num_of_authority_resource_records,
        num_of_additional_records,
    };
    proof {
        super::message::lemma_codes_round_trip(op_code, response_code, RecordClass::Internet, RecordType::A);
        assert(reply_headers(message@) == Some(headers));
    }

    let (mut sections, offset) = match parse_questions(message, 12, num_of_questions) {
        None => return None,
        Some(Err(e)) => return Some(Err(e)),
        Some(Ok(r)) => r,
    };
    let (mut answers, _offset) = match parse_answers(message, offset, num_of_answers) {
        None => return None,
        Some(Err(e)) => return Some(Err(e)),
        Some(Ok(r)) => r,
    };
    let ghost qs = sections@;
    let ghost ans = answers@;
    sections.append(&mut answers);
    assert(sections@.map_values(|r: DNSRecord| r@) =~= qs.map_values(|r: DNSRecord| r@)
        + ans.map_values(|r: DNSRecord| r@));
    Some(Ok(DNSMessage { headers, sections }))
}

/// Reads a DNS reply as it arrives in a network buffer: the header, then the questions,
/// then the answers (authority and additional records are not read).
pub fn parse_dns_response(message: &[u8; 512]) -> (res: Result<DNSMessage, String>)
    requires
        !(dns_response(message@) is Crash),
    ensures
        agrees(Some(res), dns_response(message@)),
        error_message_is(Some(res), response_error(message@)),
{
    match parse_dns_response_checked(message.as_slice()) {
        Some(r) => r,
        None => Err(String::new()),
    }
}


/// `name` with a dot at its end, unless it already ends with one.
pub open spec fn proper_name(name: Seq<char>) -> Seq<char> {
    if name.len() > 0 && name.last() == '.' {
        name
    } else {
        name + seq!['.']
    }
}

/// The fully qualified form of a domain name: with a dot at its end.
pub fn proper_domain_name(domain_name: &str) -> (res: String)
    ensures
        res@ == proper_name(domain_name@),
{
    let n = domain_name.unicode_len();
    if n > 0 && domain_name.get_char(n - 1) == '.' {
        String::from_str(domain_name)
    } else {
        let mut s = String::from_str(domain_name);
        s.append(".");
        proof {
            reveal_strlit(".");
        }
        s
    }
}

/// What a lookup has learnt of a name.
#[derive(Debug)]
pub enum DnsResult {
    CanonicalName(String),
    A(Ipv4Address),
    NotFound,
}

pub enum DnsResultView {
    CanonicalName(Seq<char>),
    A(Ipv4Address),
    NotFound,
}

impl View for DnsResult {
    type V = DnsResultView;

    open spec fn view(&self) -> DnsResultView {
        match self {
            DnsResult::CanonicalName(s) => DnsResultView::CanonicalName(s@),
            DnsResult::A(ip) => DnsResultView::A(*ip),
            DnsResult::NotFound => DnsResultView::NotFound,
        }
    }
}

/// The names learnt while resolving, each with what was learnt of it last.
pub struct DnsCache {
    entries: Vec<(String, DnsResult)>,
}

impl View for DnsCache {
    type V = Map<Seq<char>, DnsResultView>;

    closed spec fn view(&self) -> Map<Seq<char>, DnsResultView> {
        Map::new(
            |k: Seq<char>| exists|i: int| 0 <= i < self.entries@.len() && self.entries@[i].0@ == k,
            |k: Seq<char>|
                self.entries@[choose|i: int|
                    0 <= i < self.entries@.len() && self.entries@[i].0@ == k].1@,
        )
    }
}

impl DnsCache {
    /// No name appears twice.
    #[verifier::type_invariant]
    spec fn wf(&self) -> bool {
        forall|i: int, j: int|
            0 <= i < j < self.entries@.len() ==> self.entries@[i].0@ != self.entries@[j].0@
    }

    proof fn lemma_view_at(&self, i: int)
        requires
            self.wf(),
            0 <= i < self.entries@.len(),
        ensures
            self@.contains_key(self.entries@[i].0@),
            self@[self.entries@[i].0@] == self.entries@[i].1@,
    {
        let k = self.entries@[i].0@;
        let j = choose|j: int| 0 <= j < self.entries@.len() && self.entries@[j].0@ == k;
        assert(j == i);
    }

    /// An empty cache.
    pub fn new() -> (res: DnsCache)
        ensures
            res@ == Map::<Seq<char>, DnsResultView>::empty(),
    {
        let res = DnsCache { entries: Vec::new() };
        assert(res@ =~= Map::<Seq<char>, DnsResultView>::empty());
        res
    }

    fn find(&self, key: &str) -> (res: Option<usize>)
        ensures
            match res {
                Some(i) => i < self.entries@.len() && self.entries@[i as int].0@ == key@,
                None => !self@.contains_key(key@),
            },
    {
        proof {
            use_type_invariant(self);
        }
        let key_string = String::from_str(key);
        let mut i: usize = 0;
        while i < self.entries.len()
            invariant
                key_string@ == key@,
                i <= self.entries@.len(),
                forall|j: int| 0 <= j < i ==> self.entries@[j].0@ != key@,
            decreases self.entries@.len() - i,
        {
            if self.entries[i].0 == key_string {
                return Some(i);
            }
            i = i + 1;
        }
        None
    }

    /// What the cache holds for `key`.
    pub fn get(&self, key: &str) -> (res: Option<&DnsResult>)
        ensures
            match res {
                Some(r) => self@.contains_key(key@) && self@[key@] == r@,
                None => !self@.contains_key(key@),
            },
    {
        match self.find(key) {
            Some(i) => {
                proof {
                    use_type_invariant(self);
                    self.lemma_view_at(i as int);
                }
                Some(&self.entries[i].1)
            },
            None => None,
        }
    }

    /// Records `value` for `key`, in place of what was recorded before.
    pub fn insert(&mut self, key: String, value: DnsResult)
        ensures
            final(self)@ == old(self)@.insert(key@, value@),
    {
        proof {
            use_type_invariant(&*self);
        }
        let ghost k = key@;
        let ghost v = value@;
        match self.find(key.as_str()) {
            Some(i) => {
                let mut entries: Vec<(String, DnsResult)> = Vec::new();
                std::mem::swap(&mut entries, &mut self.entries);
                entries.set(i, (key, value));
                assert(forall|a: int, b: int|
                    0 <= a < b < entries@.len() ==> entries@[a].0@ != entries@[b].0@) by {
                    assert forall|a: int, b: int| 0 <= a < b < entries@.len() implies entries@[a].0@
                        != entries@[b].0@ by {
                        assert(old(self).entries@[i as int].0@ == k);
                        if a != i {
                            assert(entries@[a] == old(self).entries@[a]);
                        }
                        if b != i {
                            assert(entries@[b] == old(self).entries@[b]);
                        }
                    }
                }
                self.entries = entries;
                proof {
                    assert forall|x: Seq<char>| #[trigger] self@.contains_key(x) == old(self)@.insert(k, v).contains_key(x) by {
                        if old(self)@.contains_key(x) {
                            let j = choose|j: int| 0 <= j < old(self).entries@.len() && old(self).entries@[j].0@ == x;
                            assert(self.entries@[j].0@ == x);
                        }
                        if self@.contains_key(x) {
                            let j = choose|j: int| 0 <= j < self.entries@.len() && self.entries@[j].0@ == x;
                            if j != i {
                                assert(old(self).entries@[j].0@ == x);
                            }
                        }
                    }
                    assert forall|x: Seq<char>| #[trigger] self@.contains_key(x) implies self@[x] == old(self)@.insert(k, v)[x] by {
                        let j = choose|j: int| 0 <= j < self.entries@.len() && self.entries@[j].0@ == x;
                        self.lemma_view_at(j);
                        if j != i {
                            old(self).lemma_view_at(j);
                        }
                    }
                    assert(self@ =~= old(self)@.insert(k, v));
                }
            },
            None => {
                let mut entries: Vec<(String, DnsResult)> = Vec::new();
                std::mem::swap(&mut entries, &mut self.entries);
                entries.push((key, value));
                assert(forall|a: int, b: int|
                    0 <= a < b < entries@.len() ==> entries@[a].0@ != entries@[b].0@) by {
                    assert forall|a: int, b: int| 0 <= a < b < entries@.len() implies entries@[a].0@
                        != entries@[b].0@ by {
                        let n = old(self).entries@.len() as int;
                        assert(entries@[a] == old(self).entries@[a]);
                        if b == n {
                            assert(old(self)@.contains_key(old(self).entries@[a].0@));
                        } else {
                            assert(entries@[b] == old(self).entries@[b]);
                        }
                    }
                }
                self.entries = entries;
                proof {
                    let n = old(self).entries@.len() as int;
                    assert forall|x: Seq<char>| #[trigger] self@.contains_key(x) == old(self)@.insert(k, v).contains_key(x) by {
                        if old(self)@.contains_key(x) {
                            let j = choose|j: int| 0 <= j < old(self).entries@.len() && old(self).entries@[j].0@ == x;
                            assert(self.entries@[j].0@ == x);
                        }
                        if x == k {
                            assert(self.entries@[n].0@ == x);
                        }
                        if self@.contains_key(x) {
                            let j = choose|j: int| 0 <= j < self.entries@.len() && self.entries@[j].0@ == x;
                            if j != n {
                                assert(old(self).entries@[j].0@ == x);
                            }
                        }
                    }
                    assert forall|x: Seq<char>| #[trigger] self@.contains_key(x) implies self@[x] == old(self)@.insert(k, v)[x] by {
                        let j = choose|j: int| 0 <= j < self.entries@.len() && self.entries@[j].0@ == x;
                        self.lemma_view_at(j);
                        if j != n {
                            old(self).lemma_view_at(j);
                        }
                    }
                    assert(self@ =~= old(self)@.insert(k, v));
                }
            },
        }
    }
}

/// What the answers of a reply teach, applied in order: an A record of the Internet class
/// gives its address, a canonical-name record of that class gives the canonical name.
pub open spec fn learn_answers(
    cache: Map<Seq<char>, DnsResultView>,
    sections: Seq<DNSRecordView>,
) -> Map<Seq<char>, DnsResultView>
    decreases sections.len(),
{
    if sections.len() == 0 {
        cache
    } else {
        let last = sections.last();
        let before = learn_answers(cache, sections.drop_last());
        match last {
            DNSRecordView::Answer(a) => if a.class == RecordClass::Internet {
                match a.rdata {
                    RecordDataView::A(ip) => before.insert(a.domain_name, DnsResultView::A(ip)),
                    RecordDataView::CanonicalName(c) => before.insert(
                        a.domain_name,
                        DnsResultView::CanonicalName(c),
                    ),
                    _ => before,
                }
            } else {
                before
            },
            _ => before,
        }
    }
}

/// Records what a reply to the query for `domain_name` teaches: the queried name is first
/// marked as looked up, then each answer is learnt in order.
pub fn record_response(cache: &mut DnsCache, domain_name: &str, response: &DNSMessage)
    ensures
        final(cache)@ == learn_answers(
            old(cache)@.insert(domain_name@, DnsResultView::NotFound),
            response@.sections,
        ),
{
    cache.insert(String::from_str(domain_name), DnsResult::NotFound);
    let ghost start = cache@;
    let mut i: usize = 0;
    while i < response.sections.len()
        invariant
            start == old(cache)@.insert(domain_name@, DnsResultView::NotFound),
            i <= response.sections@.len(),
            cache@ == learn_answers(start, response@.sections.take(i as int)),
        decreases response.sections@.len() - i,
    {
        let ghost sec = response@.sections.take(i + 1);
        assert(sec.drop_last() =~= response@.sections.take(i as int));
        match &response.sections[i] {
            DNSRecord::Answer(answer) => {
                match answer.class {
                    RecordClass::Internet => {
                        match &answer.rdata {
                            RecordData::A(ip) => {
                                cache.insert(answer.domain_name.clone(), DnsResult::A(*ip));
                            },
                            RecordData::CanonicalName(cname) => {
                                cache.insert(
                                    answer.domain_name.clone(),
                                    DnsResult::CanonicalName(cname.clone()),
                                );
                            },
                            _ => {},
                        }
                    },
                    _ => {},
                }
            },
            _ => {},
        }
        i = i + 1;
    }
    assert(response@.sections.take(i as int) =~= response@.sections);
}

/// The next move in resolving `domain_name` against what is known.
#[derive(Debug)]
pub enum DnsStep {
    /// The name has an address.
    Resolved(Ipv4Address),
    /// The name is an alias: resolve this name instead.
    Follow(String),
    /// The name was asked for and not answered yet: ask the server for it.
    Query,
    /// Nothing is known of the name.
    Missing,
}

/// Looks `domain_name`, in its fully qualified form, up in the cache and says what to do next.
pub fn resolve_step(domain_name: &str, cache: &DnsCache) -> (res: DnsStep)
    ensures
        ({
            let key = proper_name(domain_name@);
            match res {
                DnsStep::Resolved(ip) => cache@.contains_key(key) && cache@[key]
                    == DnsResultView::A(ip),
                DnsStep::Follow(c) => cache@.contains_key(key) && cache@[key]
                    == DnsResultView::CanonicalName(c@),
                DnsStep::Query => cache@.contains_key(key) && cache@[key]
                    == DnsResultView::NotFound,
                DnsStep::Missing => !cache@.contains_key(key),
            }
        }),
{
    let proper = proper_domain_name(domain_name);
    match cache.get(proper.as_str()) {
        Some(DnsResult::A(ip)) => DnsStep::Resolved(*ip),
        Some(DnsResult::CanonicalName(canonical_name)) => DnsStep::Follow(canonical_name.clone()),
        Some(DnsResult::NotFound) => DnsStep::Query,
        None => DnsStep::Missing,
    }
}


/// Every label of a dotted name (the text between dots) is one to 255 bytes long: the name
/// is not empty, does not start or end with a dot, and holds no two dots in a row.
pub open spec fn labels_ok(name: Seq<u8>) -> bool
    decreases name.len(),
{
    let k = first_dot(name);
    if 0 <= k < name.len() {
        1 <= k < 256 && labels_ok(name.skip(k + 1))
    } else {
        1 <= name.len() < 256
    }
}

proof fn lemma_encode_name_len(name: Seq<u8>)
    ensures
        encode_name(name).len() == name.len() + 2,
    decreases name.len(),
{
    lemma_first_dot_range(name);
    let k = first_dot(name);
    if 0 <= k < name.len() {
        lemma_encode_name_len(name.skip(k + 1));
    }
}

proof fn lemma_read_encoded_name(msg: Seq<u8>, off: int, name: Seq<u8>)
    requires
        labels_ok(name),
        0 <= off,
        off + name.len() + 2 <= msg.len(),
        msg.subrange(off, off + name.len() + 2) == encode_name(name),
    ensures
        name_bytes_at(msg, off) == Some((name, off + name.len() + 2)),
    decreases name.len(),
{
    lemma_first_dot_range(name);
    lemma_encode_name_len(name);
    let enc = encode_name(name);
    let k = first_dot(name);
    assert(msg[off] == enc[0]);
    if 0 <= k < name.len() {
        let rest = name.skip(k + 1);
        lemma_encode_name_len(rest);
        assert(enc =~= seq![k as u8] + name.take(k) + encode_name(rest));
        assert(msg.subrange(off + 1, off + 1 + k) =~= name.take(k)) by {
            assert forall|j: int| 0 <= j < k implies msg.subrange(off + 1, off + 1 + k)[j] == name.take(k)[j] by {
                assert(msg[off + 1 + j] == enc[1 + j]);
            }
        }
        assert(msg.subrange(off + 1 + k, off + 1 + k + rest.len() + 2) =~= encode_name(rest)) by {
            assert forall|j: int| 0 <= j < rest.len() + 2 implies msg.subrange(off + 1 + k, off + 1 + k + rest.len() + 2)[j] == encode_name(rest)[j] by {
                assert(msg[off + 1 + k + j] == enc[1 + k + j]);
            }
        }
        lemma_read_encoded_name(msg, off + 1 + k, rest);
        lemma_first_dot_range(rest);
        assert(rest.len() > 0);
        assert(name.take(k) + seq![dot_byte()] + rest =~= name);
    } else {
        assert(enc =~= seq![name.len() as u8] + name + seq![0u8]);
        assert(msg.subrange(off + 1, off + 1 + name.len()) =~= name) by {
            assert forall|j: int| 0 <= j < name.len() implies msg.subrange(off + 1, off + 1 + name.len())[j] == name[j] by {
                assert(msg[off + 1 + j] == enc[1 + j]);
            }
        }
        assert(msg[off + 1 + name.len()] == enc[1 + name.len() as int]);
        assert(name_bytes_at(msg, off + 1 + name.len()) == Some((Seq::<u8>::empty(), off + name.len() + 2)));
    }
}

/// A query, read back as a reply, gives back what it asked: reading the bytes that
/// `build_resolve_bytes` writes for a name whose labels are one to 255 bytes long gives its
/// header and a single question for the A record of that name, in the Internet class,
/// whatever bytes follow the query in the buffer.
#[verifier::rlimit(60)]
#[verifier::spinoff_prover]
pub proof fn lemma_query_reads_back(domain_name: Seq<char>, transaction_id: u16, buffer: Seq<u8>)
    requires
        labels_ok(encode_utf8(domain_name)),
        query_bytes(encode_utf8(domain_name), transaction_id).len() <= buffer.len(),
        buffer.subrange(0, query_bytes(encode_utf8(domain_name), transaction_id).len() as int)
            == query_bytes(encode_utf8(domain_name), transaction_id),
    ensures
        dns_response(buffer) == Outcome::Value(
            DNSMessageView {
                headers: query_headers(transaction_id),
                sections: seq![
                    DNSRecordView::Question(
                        DNSQuestionView {
                            domain_name,
                            record_type: RecordType::A,
                            class: RecordClass::Internet,
                        },
                    ),
                ],
            },
        ),
{
    broadcast use vstd::utf8::encode_utf8_decode_utf8, vstd::utf8::encode_utf8_valid_utf8;

    let name = encode_utf8(domain_name);
    let q = query_bytes(name, transaction_id);
    let h = query_headers(transaction_id);
    lemma_encode_name_len(name);
    let l: int = name.len() as int + 2;
    assert(q.len() == 12 + l + 4);
    assert forall|j: int| 0 <= j < q.len() implies buffer[j] == q[j] by {
        assert(buffer.subrange(0, q.len() as int)[j] == buffer[j]);
    }
    assert((0u8 | ((0u8 << 3u8) as u8) | 0u8 | 0u8 | 1u8) as u8 == 1u8) by (bit_vector);
    assert((0u8 | 0u8) as u8 == 0u8) by (bit_vector);
    assert(buffer[2] == 1u8);
    assert(buffer[3] == 0u8);
    assert(buffer[0] == (transaction_id / 256) as u8 && buffer[1] == (transaction_id % 256) as u8);
    assert(be_u16_at(buffer, 0) == transaction_id);
    assert(be_u16_at(buffer, 4) == 1 && be_u16_at(buffer, 6) == 0);
    assert(be_u16_at(buffer, 8) == 0 && be_u16_at(buffer, 10) == 0);
    assert(nibble_at(1u8, 1) == 0 && nibble_at(0u8, 4) == 0);
    assert(pow2_u8(7) == 128 && pow2_u8(2) == 4 && pow2_u8(1) == 2 && pow2_u8(0) == 1);
    assert(!bit_set(1u8, 0));
    assert(!bit_set(1u8, 5));
    assert(!bit_set(1u8, 6));
    assert(bit_set(1u8, 7)) by {
        assert(pow2_u8(7 - 7) == 1);
        assert(1u8 as int / 1 == 1) by (nonlinear_arith);
    }
    assert(!bit_set(0u8, 0) && !bit_set(0u8, 1) && !bit_set(0u8, 2) && !bit_set(0u8, 3));
    assert(reply_headers(buffer) == Some(h));
    assert(buffer.subrange(12, 12 + l) =~= encode_name(name)) by {
        assert forall|j: int| 0 <= j < l implies buffer.subrange(12, 12 + l)[j] == encode_name(name)[j] by {
            assert(buffer[12 + j] == q[12 + j]);
        }
    }
    lemma_read_encoded_name(buffer, 12, name);
    assert(buffer[12 + l] == 0u8 && buffer[12 + l + 1] == 1u8);
    assert(buffer[12 + l + 2] == 0u8 && buffer[12 + l + 3] == 1u8);
    let question = DNSQuestionView {
        domain_name,
        record_type: RecordType::A,
        class: RecordClass::Internet,
    };
    assert(question_at(buffer, 12) == Outcome::Value((question, 12 + l + 4)));
    assert(questions_at(buffer, 12 + l + 4, 0) == Outcome::<(Seq<DNSRecordView>, int)>::Value((Seq::empty(), 12 + l + 4)));
    assert(seq![DNSRecordView::Question(question)] + Seq::<DNSRecordView>::empty() =~= seq![DNSRecordView::Question(question)]);
    assert(questions_at(buffer, 12, 1) == Outcome::Value((seq![DNSRecordView::Question(question)], 12 + l + 4)));
    assert(answers_at(buffer, 12 + l + 4, 0) == Outcome::<(Seq<DNSRecordView>, int)>::Value((Seq::empty(), 12 + l + 4)));
}

/// Every label of a dotted name is one to 63 bytes long, so that its length byte has its two
/// high bits clear: the name is not empty, does not start or end with a dot, and holds no two
/// dots in a row.
pub open spec fn short_labels_ok(name: Seq<u8>) -> bool
    decreases name.len(),
{
    let k = first_dot(name);
    if 0 <= k < name.len() {
        1 <= k < 64 && short_labels_ok(name.skip(k + 1))
    } else {
        1 <= name.len() < 64
    }
}

/// A valid UTF-8 text whose first byte is a dot decodes to a dot and the rest.
proof fn lemma_decode_dot_first(b: Seq<u8>)
    requires
        valid_utf8(b),
        b.len() > 0,
        b[0] == dot_byte(),
    ensures
        valid_utf8(b.skip(1)),
        decode_utf8(b) == seq!['.'] + decode_utf8(b.skip(1)),
{
    assert((46u8 & 0x7Fu8) as u32 == 46u32) by (bit_vector);
    assert(pop_first_scalar(b) =~= b.skip(1));
    assert(decode_first_scalar(b) == 46);
    assert(46u32 as char == '.');
}

/// Reading a name written without compression, with short labels, gives its text with a
/// dot at the end, and the offset past its closing zero byte.
proof fn lemma_domain_at_encoded(msg: Seq<u8>, off: int, name: Seq<u8>, fuel: nat)
    requires
        short_labels_ok(name),
        valid_utf8(name),
        0 <= off,
        off + name.len() + 2 <= msg.len(),
        msg.subrange(off, off + name.len() + 2) == encode_name(name),
        fuel > name.len(),
    ensures
        domain_at(msg, off, fuel) == Outcome::Value((decode_utf8(name) + seq!['.'], off + name.len() + 2)),
    decreases name.len(),
{
    lemma_first_dot_range(name);
    lemma_encode_name_len(name);
    let enc = encode_name(name);
    let k = first_dot(name);
    assert(msg[off] == enc[0]);
    assert(pow2_u8(7) == 128 && pow2_u8(6) == 64);
    if 0 <= k < name.len() {
        let rest = name.skip(k + 1);
        lemma_encode_name_len(rest);
        assert(enc =~= seq![k as u8] + name.take(k) + encode_name(rest));
        assert(msg[off] == k as u8);
        assert(!bit_set(k as u8, 0) && !bit_set(k as u8, 1));
        assert(msg[off] != 0);
        assert(msg.subrange(off + 1, off + 1 + k) =~= name.take(k)) by {
            assert forall|j: int| 0 <= j < k implies msg.subrange(off + 1, off + 1 + k)[j] == name.take(k)[j] by {
                assert(msg[off + 1 + j] == enc[1 + j]);
            }
        }
        assert(msg.subrange(off + 1 + k, off + 1 + k + rest.len() + 2) =~= encode_name(rest)) by {
            assert forall|j: int| 0 <= j < rest.len() + 2 implies msg.subrange(off + 1 + k, off + 1 + k + rest.len() + 2)[j] == encode_name(rest)[j] by {
                assert(msg[off + 1 + k + j] == enc[1 + k + j]);
            }
        }
        vstd::utf8::is_char_boundary_iff_is_leading_byte(name, k);
        assert(vstd::utf8::is_leading_byte_width_1(name[k]));
        vstd::utf8::valid_utf8_split(name, k);
        vstd::utf8::decode_utf8_split(name, k);
        assert(name.subrange(0, k) =~= name.take(k));
        let second = name.subrange(k, name.len() as int);
        lemma_decode_dot_first(second);
        assert(second.skip(1) =~= rest);
        lemma_domain_at_encoded(msg, off + 1 + k, rest, (fuel - 1) as nat);
        assert(decode_utf8(name.take(k)) + seq!['.'] + (decode_utf8(rest) + seq!['.'])
            =~= decode_utf8(name) + seq!['.']);
    } else {
        assert(enc =~= seq![name.len() as u8] + name + seq![0u8]);
        assert(msg[off] == name.len() as u8);
        assert(!bit_set(name.len() as u8, 0) && !bit_set(name.len() as u8, 1));
        assert(msg.subrange(off + 1, off + 1 + name.len()) =~= name) by {
            assert forall|j: int| 0 <= j < name.len() implies msg.subrange(off + 1, off + 1 + name.len())[j] == name[j] by {
                assert(msg[off + 1 + j] == enc[1 + j]);
            }
        }
        assert(msg[off + 1 + name.len()] == enc[1 + name.len() as int]);
        assert(domain_at(msg, off + 1 + name.len(), (fuel - 1) as nat) == Outcome::Value((Seq::<char>::empty(), off + name.len() + 2)));
        assert(decode_utf8(name) + seq!['.'] + Seq::<char>::empty() =~= decode_utf8(name) + seq!['.']);
    }
}

/// The name of a query reads back: reading the domain name at the start of the question of
/// the bytes that `build_resolve_bytes` writes, for a name whose labels are one to 63 bytes
/// long, gives the name with the root's dot at its end, and the offset just past it.
#[verifier::rlimit(40)]
pub proof fn lemma_query_name_reads_back(domain_name: Seq<char>, transaction_id: u16)
    requires
        short_labels_ok(encode_utf8(domain_name)),
    ensures
        domain_name_at(query_bytes(encode_utf8(domain_name), transaction_id), 12) == Outcome::Value(
            (domain_name + seq!['.'], 12 + encode_utf8(domain_name).len() as int + 2),
        ),
{
    broadcast use vstd::utf8::encode_utf8_decode_utf8, vstd::utf8::encode_utf8_valid_utf8;

    let name = encode_utf8(domain_name);
    let q = query_bytes(name, transaction_id);
    lemma_encode_name_len(name);
    let l: int = name.len() as int + 2;
    assert(q.len() == 12 + l + 4);
    assert(q.subrange(12, 12 + l) =~= encode_name(name));
    lemma_domain_at_encoded(q, 12, name, q.len());
}

/// Whether an answer of the Internet class gives an address or a canonical name for `name`.
pub open spec fn answers_for(r: DNSRecordView, name: Seq<char>) -> bool {
    r matches DNSRecordView::Answer(b) && b.class == RecordClass::Internet && b.domain_name == name
        && (b.rdata is A || b.rdata is CanonicalName)
}

/// Recording a reply keeps what its answers give: an Internet-class answer whose data is an
/// address `ip` (a canonical name `c`) leaves its domain name known as `A(ip)`
/// (`CanonicalName(c)`), unless a later answer of that class gives the same name an address
/// or a canonical name.
pub proof fn lemma_answers_are_recorded(
    cache: Map<Seq<char>, DnsResultView>,
    sections: Seq<DNSRecordView>,
    i: int,
    a: DNSAnswerView,
)
    requires
        0 <= i < sections.len(),
        sections[i] == DNSRecordView::Answer(a),
        a.class == RecordClass::Internet,
        a.rdata is A || a.rdata is CanonicalName,
        forall|j: int| i < j < sections.len() ==> !answers_for(#[trigger] sections[j], a.domain_name),
    ensures
        learn_answers(cache, sections).contains_key(a.domain_name),
        a.rdata matches RecordDataView::A(ip) ==> learn_answers(cache, sections)[a.domain_name]
            == DnsResultView::A(ip),
        a.rdata matches RecordDataView::CanonicalName(c) ==> learn_answers(cache, sections)[a.domain_name]
            == DnsResultView::CanonicalName(c),
    decreases sections.len(),
{
    let n = sections.len() as int;
    if i < n - 1 {
        let rest = sections.drop_last();
        assert forall|j: int| i < j < rest.len() implies !answers_for(#[trigger] rest[j], a.domain_name) by {
            assert(rest[j] == sections[j]);
        }
        lemma_answers_are_recorded(cache, rest, i, a);
        assert(!answers_for(sections[n - 1], a.domain_name));
    }
}

/// Recording a reply leaves every name that no Internet-class answer gives an address or a
/// canonical name as the cache had it.
pub proof fn lemma_unanswered_names_are_kept(
    cache: Map<Seq<char>, DnsResultView>,
    sections: Seq<DNSRecordView>,
    name: Seq<char>,
)
    requires
        forall|j: int| 0 <= j < sections.len() ==> !answers_for(#[trigger] sections[j], name),
    ensures
        learn_answers(cache, sections).contains_key(name) == cache.contains_key(name),
        cache.contains_key(name) ==> learn_answers(cache, sections)[name] == cache[name],
    decreases sections.len(),
{
    if sections.len() > 0 {
        let rest = sections.drop_last();
        assert forall|j: int| 0 <= j < rest.len() implies !answers_for(#[trigger] rest[j], name) by {
            assert(rest[j] == sections[j]);
        }
        lemma_unanswered_names_are_kept(cache, rest, name);
        assert(!answers_for(sections[sections.len() - 1], name));
    }
}

} // verus!
