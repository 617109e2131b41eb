//! The structures of a DNS message, as RFC 1035 lays them out.
use vstd::prelude::*;

verus! {

/// A whole DNS message: its header and its question and answer records, in order.
#[derive(Debug)]
pub struct DNSMessage {
    pub headers: DNSHeaders,
    pub sections: Vec<DNSRecord>,
}

#[derive(Debug)]
pub enum DNSRecord {
    Question(DNSQuestion),
    Answer(DNSAnswer),
}

#[derive(Debug, Clone, Copy, PartialEq, Eq, Structural)]
pub struct DNSHeaders {
    pub transaction_id: u16,
    pub flags: DNSFlagsHeader,
    pub num_of_questions: u16,
    pub num_of_answers: u16,
    pub num_of_authority_resource_records: u16,
    pub num_of_additional_records: u16,
}

#[derive(Debug, Clone, Copy, PartialEq, Eq, Structural)]
pub struct DNSFlagsHeader {
    /// otherwise query
    pub is_reply: bool,
    pub op_code: OpCode,
    pub is_authoritative_answer: bool,
    pub is_truncated: bool,
    pub recursion_desired: bool,
    pub recursion_available: bool,
    pub response_code: ResponseCode,
}

#[derive(Debug, Clone, Copy, PartialEq, Eq, Structural)]
pub enum OpCode {
    Query,
    InverseQuery,
    Status,
}

/// The four-bit code of each operation.
pub open spec fn op_code_value(op: OpCode) -> u8 {
    match op {
        OpCode::Query => 0,
        OpCode::InverseQuery => 1,
        OpCode::Status => 2,
    }
}

impl OpCode {
    /// The operation with the given code; codes other than 0, 1 and 2 are refused.
    pub fn try_from(u4: u8) -> (res: Result<OpCode, &'static str>)
        ensures
            u4 <= 2 <==> res is Ok,
            res matches Ok(op) ==> op_code_value(op) == u4,
            res matches Err(e) ==> e@ == "Unsupported opcode"@,
    {
        match u4 {
            0 => Ok(Self::Query),
            1 => Ok(Self::InverseQuery),
            2 => Ok(Self::Status),
            _ => Err("Unsupported opcode"),
        }
    }

    /// The code of the operation.
    pub fn into_u8(self) -> (res: u8)
        ensures
            res == op_code_value(self),
    {
        match self {
            Self::Query => 0,
            Self::InverseQuery => 1,
            Self::Status => 2,
        }
    }
}

#[derive(Debug, Clone, Copy, PartialEq, Eq, Structural)]
pub enum ResponseCode {
    NoError,
    FormatError,
    ServerError,
    NameError,
    NotImplemented,
    Refused,
}

/// The four-bit code of each response.
pub open spec fn response_code_value(code: ResponseCode) -> u8 {
    match code {
        ResponseCode::NoError => 0,
        ResponseCode::FormatError => 1,
        ResponseCode::ServerError => 2,
        ResponseCode::NameError => 3,
        ResponseCode::NotImplemented => 4,
        ResponseCode::Refused => 5,
    }
}

impl ResponseCode {
    /// The code of the response.
    pub fn into_u8(self) -> (res: u8)
        ensures
            res == response_code_value(self),
    {
        match self {
            Self::NoError => 0,
            Self::FormatError => 1,
            Self::ServerError => 2,
            Self::NameError => 3,
            Self::NotImplemented => 4,
            Self::Refused => 5,
        }
    }

    /// The response with the given code; codes above 5 are refused.
    pub fn try_from(u4: u8) -> (res: Result<ResponseCode, &'static str>)
        ensures
            u4 <= 5 <==> res is Ok,
            res matches Ok(code) ==> response_code_value(code) == u4,
            res matches Err(e) ==> e@ == "Unsupported response code"@,
    {
        match u4 {
            0 => Ok(Self::NoError),
            1 => Ok(Self::FormatError),
            2 => Ok(Self::ServerError),
            3 => Ok(Self::NameError),
            4 => Ok(Self::NotImplemented),
            5 => Ok(Self::Refused),
            _ => Err("Unsupported response code"),
        }
    }
}

#[derive(Debug, Clone, Copy, PartialEq, Eq, Structural)]
pub enum RecordClass {
    Internet,
    CSNET,
    Chaos,
    Hesiod,
}

/// The sixteen-bit code of each record class.
pub open spec fn record_class_value(class: RecordClass) -> u16 {
    match class {
        RecordClass::Internet => 1,
        RecordClass::CSNET => 2,
        RecordClass::Chaos => 3,
        RecordClass::Hesiod => 4,
    }
}

impl RecordClass {
    /// The code of the class.
    pub fn as_u16(&self) -> (res: u16)
        ensures
            res == record_class_value(*self),
    {
        match self {
            Self::Internet => 1,
            Self::CSNET => 2,
            Self::Chaos => 3,
            Self::Hesiod => 4,
        }
    }

    /// The class with the given code; codes other than 1 to 4 are refused.
    pub fn try_from(literal: u16) -> (res: Result<RecordClass, &'static str>)
        ensures
            1 <= literal <= 4 <==> res is Ok,
            res matches Ok(class) ==> record_class_value(class) == literal,
            res matches Err(e) ==> e@ == "Unsupported record class"@,
    {
        match literal {
            1 => Ok(Self::Internet),
            2 => Ok(Self::CSNET),
            3 => Ok(Self::Chaos),
            4 => Ok(Self::Hesiod),
            _ => Err("Unsupported record class"),
        }
    }
}

#[derive(Debug, Clone, Copy, PartialEq, Eq, Structural)]
pub enum RecordType {
    A,
    NameServer,
    MailDestination,
    MailForwarder,
    CanonicalName,
    StartOfZoneOfAuthority,
    MailboxDomainName,
    MailGroupMember,
    MailRenameDomainName,
    Null,
    WellKnownServiceDescription,
    Pointer,
    HostInfo,
    MailboxInfo,
    MailExchange,
    Text,
}

/// The sixteen-bit code of each record type.
pub open spec fn record_type_value(t: RecordType) -> u16 {
    match t {
        RecordType::A => 1,
        RecordType::NameServer => 2,
        RecordType::MailDestination => 3,
        RecordType::MailForwarder => 4,
        RecordType::CanonicalName => 5,
        RecordType::StartOfZoneOfAuthority => 6,
        RecordType::MailboxDomainName => 7,
        RecordType::MailGroupMember => 8,
        RecordType::MailRenameDomainName => 9,
        RecordType::Null => 10,
        RecordType::WellKnownServiceDescription => 11,
        RecordType::Pointer => 12,
        RecordType::HostInfo => 13,
        RecordType::MailboxInfo => 14,
        RecordType::MailExchange => 15,
        RecordType::Text => 16,
    }
}

impl RecordType {
    /// The code of the record type.
    pub fn as_u16(&self) -> (res: u16)
        ensures
            res == record_type_value(*self),
    {
        match self {
            Self::A => 1,
            Self::NameServer => 2,
            Self::MailDestination => 3,
            Self::MailForwarder => 4,
            Self::CanonicalName => 5,
            Self::StartOfZoneOfAuthority => 6,
            Self::MailboxDomainName => 7,
            Self::MailGroupMember => 8,
            Self::MailRenameDomainName => 9,
            Self::Null => 10,
            Self::WellKnownServiceDescription => 11,
            Self::Pointer => 12,
            Self::HostInfo => 13,
            Self::MailboxInfo => 14,
            Self::MailExchange => 15,
            Self::Text => 16,
        }
    }

    /// The record type with the given code; codes other than 1 to 16 are refused.
    pub fn try_from(literal: u16) -> (res: Result<RecordType, &'static str>)
        ensures
            1 <= literal <= 16 <==> res is Ok,
            res matches Ok(t) ==> record_type_value(t) == literal,
            res matches Err(e) ==> e@ == "Unsupported record type"@,
    {
        match literal {
            1 => Ok(Self::A),
            2 => Ok(Self::NameServer),
            3 => Ok(Self::MailDestination),
            4 => Ok(Self::MailForwarder),
            5 => Ok(Self::CanonicalName),
            6 => Ok(Self::StartOfZoneOfAuthority),
            7 => Ok(Self::MailboxDomainName),
            8 => Ok(Self::MailGroupMember),
            9 => Ok(Self::MailRenameDomainName),
            10 => Ok(Self::Null),
            11 => Ok(Self::WellKnownServiceDescription),
            12 => Ok(Self::Pointer),
            13 => Ok(Self::HostInfo),
            14 => Ok(Self::MailboxInfo),
            15 => Ok(Self::MailExchange),
            16 => Ok(Self::Text),
            _ => Err("Unsupported record type"),
        }
    }
}

/// Each code names at most one operation, response, class and record type: decoding the
/// code of a value gives the value back.
pub proof fn lemma_codes_round_trip(op: OpCode, code: ResponseCode, class: RecordClass, t: RecordType)
    ensures
        forall|o: OpCode| op_code_value(o) == op_code_value(op) ==> o == op,
        forall|c: ResponseCode| response_code_value(c) == response_code_value(code) ==> c == code,
        forall|c: RecordClass| record_class_value(c) == record_class_value(class) ==> c == class,
        forall|r: RecordType| record_type_value(r) == record_type_value(t) ==> r == t,
        op_code_value(op) <= 2,
        response_code_value(code) <= 5,
        1 <= record_class_value(class) <= 4,
        1 <= record_type_value(t) <= 16,
{
}

#[derive(Debug)]
pub struct DNSQuestion {
    pub domain_name: String,
    pub record_type: RecordType,
    pub class: RecordClass,
}

#[derive(Debug)]
pub struct DNSAnswer {
    pub domain_name: String,
    pub record_type: RecordType,
    pub class: RecordClass,
    pub ttl: i32,
    pub rdata: RecordData,
}

#[derive(Debug, Clone, Copy, PartialEq, Eq, Structural)]
pub enum Protocol {
    Unsuported,
    TCP,
    UDP,
    SMTP,
}

impl Protocol {
    /// The protocol number, as /etc/protocols lists it.
    pub fn value(&self) -> (res: u8)
        ensures
            res == (match *self {
                Protocol::Unsuported => 0u8,
                Protocol::TCP => 6u8,
                Protocol::UDP => 17u8,
                Protocol::SMTP => 25u8,
            }),
    {
        match self {
            Self::Unsuported => 0,
            Self::TCP => 6,
            Self::UDP => 17,
            Self::SMTP => 25,
        }
    }
}

/// An IPv4 address, as its four octets in network order.
#[derive(Debug, Clone, Copy, PartialEq, Eq, Structural)]
pub struct Ipv4Address(pub u8, pub u8, pub u8, pub u8);

#[derive(Debug)]
pub enum RecordData {
    CanonicalName(String),
    HostInfo {
        cpu: String,
        os: String,
    },
    Mailbox(String),
    MailboxDelivery(String),
    MailboxForward(String),
    MailboxGroup(String),
    MailboxInfo {
        /// The domain name responsible for itself
        respsonsible_domain_name: String,
        /// The domain to send errors
        error_domain_name: String,
    },
    MailboxRename(String),
    MailboxExchange {
        /// Also called priority
        preference: u16,
        exchange_domain_name: String,
    },
    Null(String),
    NameServer(String),
    Pointer(String),
    StartOfZoneOfAuthority {
        master_domain_name: String,
        responsible_mailbox_domain_name: String,
        serial: u32,
        refresh: u32,
        retry: u32,
        expire: u32,
        minimum_ttl: u32,
    },
    Text(Vec<String>),
    A(Ipv4Address),
    WellKnownServiceDescription {
        address: Ipv4Address,
        protocol: Protocol,
        bitmap: Vec<u8>,
    },
}


/// A question record, with its name as text.
pub struct DNSQuestionView {
    pub domain_name: Seq<char>,
    pub record_type: RecordType,
    pub class: RecordClass,
}

impl View for DNSQuestion {
    type V = DNSQuestionView;

    open spec fn view(&self) -> DNSQuestionView {
        DNSQuestionView {
            domain_name: self.domain_name@,
            record_type: self.record_type,
            class: self.class,
        }
    }
}

/// The data of a resource record, with its texts as character sequences.
pub enum RecordDataView {
    CanonicalName(Seq<char>),
    HostInfo { cpu: Seq<char>, os: Seq<char> },
    Mailbox(Seq<char>),
    MailboxDelivery(Seq<char>),
    MailboxForward(Seq<char>),
    MailboxGroup(Seq<char>),
    MailboxInfo { respsonsible_domain_name: Seq<char>, error_domain_name: Seq<char> },
    MailboxRename(Seq<char>),
    MailboxExchange { preference: u16, exchange_domain_name: Seq<char> },
    Null(Seq<char>),
    NameServer(Seq<char>),
    Pointer(Seq<char>),
    StartOfZoneOfAuthority {
        master_domain_name: Seq<char>,
        responsible_mailbox_domain_name: Seq<char>,
        serial: u32,
        refresh: u32,
        retry: u32,
        expire: u32,
        minimum_ttl: u32,
    },
    Text(Seq<Seq<char>>),
    A(Ipv4Address),
    WellKnownServiceDescription { address: Ipv4Address, protocol: Protocol, bitmap: Seq<u8> },
}

impl View for RecordData {
    type V = RecordDataView;

    open spec fn view(&self) -> RecordDataView {
        match self {
            RecordData::CanonicalName(s) => RecordDataView::CanonicalName(s@),
            RecordData::HostInfo { cpu, os } => RecordDataView::HostInfo { cpu: cpu@, os: os@ },
            RecordData::Mailbox(s) => RecordDataView::Mailbox(s@),
            RecordData::MailboxDelivery(s) => RecordDataView::MailboxDelivery(s@),
            RecordData::MailboxForward(s) => RecordDataView::MailboxForward(s@),
            RecordData::MailboxGroup(s) => RecordDataView::MailboxGroup(s@),
            RecordData::MailboxInfo { respsonsible_domain_name, error_domain_name } =>
                RecordDataView::MailboxInfo {
                    respsonsible_domain_name: respsonsible_domain_name@,
                    error_domain_name: error_domain_name@,
                },
            RecordData::MailboxRename(s) => RecordDataView::MailboxRename(s@),
            RecordData::MailboxExchange { preference, exchange_domain_name } =>
                RecordDataView::MailboxExchange {
                    preference: *preference,
                    exchange_domain_name: exchange_domain_name@,
                },
            RecordData::Null(s) => RecordDataView::Null(s@),
            RecordData::NameServer(s) => RecordDataView::NameServer(s@),
            RecordData::Pointer(s) => RecordDataView::Pointer(s@),
            RecordData::StartOfZoneOfAuthority {
                master_domain_name,
                responsible_mailbox_domain_name,
                serial,
                refresh,
                retry,
                expire,
                minimum_ttl,
            } => RecordDataView::StartOfZoneOfAuthority {
                master_domain_name: master_domain_name@,
                responsible_mailbox_domain_name: responsible_mailbox_domain_name@,
                serial: *serial,
                refresh: *refresh,
                retry: *retry,
                expire: *expire,
                minimum_ttl: *minimum_ttl,
            },
            RecordData::Text(texts) => RecordDataView::Text(texts@.map_values(|t: String| t@)),
            RecordData::A(ip) => RecordDataView::A(*ip),
            RecordData::WellKnownServiceDescription { address, protocol, bitmap } =>
                RecordDataView::WellKnownServiceDescription {
                address: *address,
                protocol: *protocol,
                bitmap: bitmap@,
            },
        }
    }
}

/// An answer record, with its texts as character sequences.
pub struct DNSAnswerView {
    pub domain_name: Seq<char>,
    pub record_type: RecordType,
    pub class: RecordClass,
    pub ttl: i32,
    pub rdata: RecordDataView,
}

impl View for DNSAnswer {
    type V = DNSAnswerView;

    open spec fn view(&self) -> DNSAnswerView {
        DNSAnswerView {
            domain_name: self.domain_name@,
            record_type: self.record_type,
            class: self.class,
            ttl: self.ttl,
            rdata: self.rdata@,
        }
    }
}

pub enum DNSRecordView {
    Question(DNSQuestionView),
    Answer(DNSAnswerView),
}

impl View for DNSRecord {
    type V = DNSRecordView;

    open spec fn view(&self) -> DNSRecordView {
        match self {
            DNSRecord::Question(q) => DNSRecordView::Question(q@),
            DNSRecord::Answer(a) => DNSRecordView::Answer(a@),
        }
    }
}

/// A whole message: its header and the views of its records, in order.
pub struct DNSMessageView {
    pub headers: DNSHeaders,
    pub sections: Seq<DNSRecordView>,
}

impl View for DNSMessage {
    type V = DNSMessageView;

    open spec fn view(&self) -> DNSMessageView {
        DNSMessageView {
            headers: self.headers,
            sections: self.sections@.map_values(|r: DNSRecord| r@),
        }
    }
}

} // verus!
