//! The question section of a DNS message: QNAME, QTYPE, and QCLASS, with
//! the compression-aware name decoder (RFC 1035, Sections 4.1.2 and 4.1.4).

use crate::domain::error::TryFromError;
use crate::domain::name::{ascii_chars_of, is_label_bytes, label_error_matches, Domain};
use crate::message::header::spec_u16_from_be;
use vstd::prelude::*;

verus! {

/// A 16-bit QTYPE value.  Any value is legal on the wire; the raw value is
/// retained, and [`QType::to_known_type`] maps it to the closed
/// enumeration of known query types where possible.
#[derive(Debug, PartialEq, Eq, Structural)]
pub struct QType {
    pub value: u16,
}

/// The query types that RFC 1035 names.
#[derive(Debug, PartialEq, Eq, Structural, Clone, Copy)]
pub enum KnownQType {
    A,
    NS,
    MD,
    MF,
    CNAME,
    SOA,
    MB,
    MG,
    MR,
    NULL,
    WKS,
    PTR,
    HINFO,
    MINFO,
    MX,
    TXT,
    AXFR,
    MAILB,
    MAILA,
    ANY,
}

/// The 16-bit value that each known query type has on the wire.
pub open spec fn spec_known_qtype_value(k: KnownQType) -> u16 {
    match k {
        KnownQType::A => 1,
        KnownQType::NS => 2,
        KnownQType::MD => 3,
        KnownQType::MF => 4,
        KnownQType::CNAME => 5,
        KnownQType::SOA => 6,
        KnownQType::MB => 7,
        KnownQType::MG => 8,
        KnownQType::MR => 9,
        KnownQType::NULL => 10,
        KnownQType::WKS => 11,
        KnownQType::PTR => 12,
        KnownQType::HINFO => 13,
        KnownQType::MINFO => 14,
        KnownQType::MX => 15,
        KnownQType::TXT => 16,
        KnownQType::AXFR => 252,
        KnownQType::MAILB => 253,
        KnownQType::MAILA => 254,
        KnownQType::ANY => 255,
    }
}

/// The known query type that a raw 16-bit value names, if any.
pub open spec fn spec_known_qtype(value: u16) -> Option<KnownQType> {
    if value == 1 {
        Some(KnownQType::A)
    } else if value == 2 {
        Some(KnownQType::NS)
    } else if value == 3 {
        Some(KnownQType::MD)
    } else if value == 4 {
        Some(KnownQType::MF)
    } else if value == 5 {
        Some(KnownQType::CNAME)
    } else if value == 6 {
        Some(KnownQType::SOA)
    } else if value == 7 {
        Some(KnownQType::MB)
    } else if value == 8 {
        Some(KnownQType::MG)
    } else if value == 9 {
        Some(KnownQType::MR)
    } else if value == 10 {
        Some(KnownQType::NULL)
    } else if value == 11 {
        Some(KnownQType::WKS)
    } else if value == 12 {
        Some(KnownQType::PTR)
    } else if value == 13 {
        Some(KnownQType::HINFO)
    } else if value == 14 {
        Some(KnownQType::MINFO)
    } else if value == 15 {
        Some(KnownQType::MX)
    } else if value == 16 {
        Some(KnownQType::TXT)
    } else if value == 252 {
        Some(KnownQType::AXFR)
    } else if value == 253 {
        Some(KnownQType::MAILB)
    } else if value == 254 {
        Some(KnownQType::MAILA)
    } else if value == 255 {
        Some(KnownQType::ANY)
    } else {
        None
    }
}

impl QType {
    /// Wraps a raw 16-bit QTYPE value; every value is legal.
    pub fn new(value: u16) -> (r: QType)
        ensures
            r == (QType { value }),
    {
        QType { value }
    }

    /// Maps the raw value to the closed enumeration of known query types,
    /// or `None` when the value is not one RFC 1035 names.
    pub fn to_known_type(&self) -> (r: Option<KnownQType>)
        ensures
            r == spec_known_qtype(self.value),
    {
        match self.value {
            1 => Some(KnownQType::A),
            2 => Some(KnownQType::NS),
            3 => Some(KnownQType::MD),
            4 => Some(KnownQType::MF),
            5 => Some(KnownQType::CNAME),
            6 => Some(KnownQType::SOA),
            7 => Some(KnownQType::MB),
            8 => Some(KnownQType::MG),
            9 => Some(KnownQType::MR),
            10 => Some(KnownQType::NULL),
            11 => Some(KnownQType::WKS),
            12 => Some(KnownQType::PTR),
            13 => Some(KnownQType::HINFO),
            14 => Some(KnownQType::MINFO),
            15 => Some(KnownQType::MX),
            16 => Some(KnownQType::TXT),
            252 => Some(KnownQType::AXFR),
            253 => Some(KnownQType::MAILB),
            254 => Some(KnownQType::MAILA),
            255 => Some(KnownQType::ANY),
            _ => None,
        }
    }

    /// The QTYPE carrying a known query type's wire value.
    pub fn from(value: KnownQType) -> (r: QType)
        ensures
            r.value == spec_known_qtype_value(value),
    {
        match value {
            KnownQType::A => QType { value: 1 },
            KnownQType::NS => QType { value: 2 },
            KnownQType::MD => QType { value: 3 },
            KnownQType::MF => QType { value: 4 },
            KnownQType::CNAME => QType { value: 5 },
            KnownQType::SOA => QType { value: 6 },
            KnownQType::MB => QType { value: 7 },
            KnownQType::MG => QType { value: 8 },
            KnownQType::MR => QType { value: 9 },
            KnownQType::NULL => QType { value: 10 },
            KnownQType::WKS => QType { value: 11 },
            KnownQType::PTR => QType { value: 12 },
            KnownQType::HINFO => QType { value: 13 },
            KnownQType::MINFO => QType { value: 14 },
            KnownQType::MX => QType { value: 15 },
            KnownQType::TXT => QType { value: 16 },
            KnownQType::AXFR => QType { value: 252 },
            KnownQType::MAILB => QType { value: 253 },
            KnownQType::MAILA => QType { value: 254 },
            KnownQType::ANY => QType { value: 255 },
        }
    }
}

/// A 16-bit QCLASS value.  Any value is legal on the wire; the raw value
/// is retained, and [`QClass::to_known_class`] maps it to the closed
/// enumeration of known classes where possible.
#[derive(Debug, PartialEq, Eq, Structural)]
pub struct QClass {
    pub value: u16,
}

/// The question classes that RFC 1035 names.
#[derive(Debug, PartialEq, Eq, Structural, Clone, Copy)]
pub enum KnownQClass {
    IN,
    CS,
    CH,
    HS,
    ANY,
}

/// The 16-bit value that each known class has on the wire.
pub open spec fn spec_known_qclass_value(k: KnownQClass) -> u16 {
    match k {
        KnownQClass::IN => 1,
        KnownQClass::CS => 2,
        KnownQClass::CH => 3,
        KnownQClass::HS => 4,
        KnownQClass::ANY => 255,
    }
}

/// The known class that a raw 16-bit value names, if any.
pub open spec fn spec_known_qclass(value: u16) -> Option<KnownQClass> {
    if value == 1 {
        Some(KnownQClass::IN)
    } else if value == 2 {
        Some(KnownQClass::CS)
    } else if value == 3 {
        Some(KnownQClass::CH)
    } else if value == 4 {
        Some(KnownQClass::HS)
    } else if value == 255 {
        Some(KnownQClass::ANY)
    } else {
        None
    }
}

impl QClass {
    /// Wraps a raw 16-bit QCLASS value; every value is legal.
    pub fn new(value: u16) -> (r: QClass)
        ensures
            r == (QClass { value }),
    {
        QClass { value }
    }

    /// Maps the raw value to the closed enumeration of known classes, or
    /// `None` when the value is not one RFC 1035 names.
    pub fn to_known_class(&self) -> (r: Option<KnownQClass>)
        ensures
            r == spec_known_qclass(self.value),
    {
        match self.value {
            1 => Some(KnownQClass::IN),
            2 => Some(KnownQClass::CS),
            3 => Some(KnownQClass::CH),
            4 => Some(KnownQClass::HS),
            255 => Some(KnownQClass::ANY),
            _ => None,
        }
    }

    /// The QCLASS carrying a known class's wire value.
    pub fn from(value: KnownQClass) -> (r: QClass)
        ensures
            r.value == spec_known_qclass_value(value),
    {
        match value {
            KnownQClass::IN => QClass { value: 1 },
            KnownQClass::CS => QClass { value: 2 },
            KnownQClass::CH => QClass { value: 3 },
            KnownQClass::HS => QClass { value: 4 },
            KnownQClass::ANY => QClass { value: 255 },
        }
    }
}

/// One record of the question section: the name queried, the record type
/// requested, and the class.
#[derive(Debug, PartialEq)]
pub struct Question {
    pub q_name: Domain,
    pub q_type: QType,
    pub q_class: QClass,
}

/// A decoded question together with `bytes_read`: how many bytes the
/// question occupies at the caller's original linear position, so the
/// caller can advance its cursor to the next record.  Bytes reached only
/// through a compression pointer are not counted.
#[derive(Debug, PartialEq)]
pub struct QuestionParseData {
    pub question: Question,
    pub bytes_read: usize,
}

/// Why a question failed to decode.
///
/// Label errors found while reading the name propagate the domain error
/// verbatim; the remaining kinds harden the decoder against untrusted
/// length and pointer fields, which must never cause an out-of-bounds
/// access or an endless walk.
#[derive(Debug, PartialEq)]
pub enum QuestionTryFromError {
    /// A label inside the name failed to parse.
    Domain(TryFromError),
    /// The name or the fixed fields after it run past the end of the
    /// message buffer.
    TruncatedMessage,
    /// A compression pointer targets an offset at or past the end of the
    /// message buffer.
    InvalidPointerTarget,
    /// More pointers were followed than the message has bytes, so the
    /// pointer chain necessarily revisits an offset and loops forever.
    CompressionLoopDetected,
}

/// The outcome of walking a wire-format name.
pub enum NameDecode {
    /// The name decoded: its raw labels in order, and `lin`, the number of
    /// bytes the name occupies at the position the walk started from —
    /// every length byte and label up to the terminator, or up to and
    /// including the first compression pointer, past which the name lives
    /// elsewhere in the message.
    Labels { labels: Seq<Seq<u8>>, lin: int },
    /// A label failed the grammar; carries the first such label's bytes.
    BadLabel { label: Seq<u8> },
    /// A length byte, pointer byte, or label runs past the buffer end.
    Truncated,
    /// A pointer targets an offset at or past the buffer end.
    BadPointer,
    /// The pointer-hop budget ran out.
    PointerLoop,
}

/// Walks the wire-format name that starts at `pos` inside `msg`.
///
/// Each step reads one byte.  A byte of 192 or more (its two high bits
/// set) is a compression pointer: its low six bits and the next byte give
/// an absolute offset, and the walk continues there, spending one unit of
/// the hop budget `hops`.  A zero byte terminates the name.  Any other
/// byte is a label length, followed by that many bytes of label content,
/// which must satisfy the label grammar.
pub open spec fn spec_decode_name(msg: Seq<u8>, pos: int, hops: nat) -> NameDecode
    decreases hops, msg.len() - pos,
{
    if pos < 0 || pos >= msg.len() {
        NameDecode::Truncated
    } else {
        let b = msg[pos];
        if b >= 192 {
            if pos + 1 >= msg.len() {
                NameDecode::Truncated
            } else {
                let target = (b - 192) * 256 + msg[pos + 1];
                if target >= msg.len() {
                    NameDecode::BadPointer
                } else if hops == 0 {
                    NameDecode::PointerLoop
                } else {
                    match spec_decode_name(msg, target, (hops - 1) as nat) {
                        NameDecode::Labels { labels, lin } => NameDecode::Labels {
                            labels,
                            lin: 2,
                        },
                        e => e,
                    }
                }
            }
        } else if b == 0 {
            NameDecode::Labels { labels: Seq::empty(), lin: 1 }
        } else {
            let l = b as int;
            if pos + 1 + l > msg.len() {
                NameDecode::Truncated
            } else {
                let label = msg.subrange(pos + 1, pos + 1 + l);
                if !is_label_bytes(label) {
                    NameDecode::BadLabel { label }
                } else {
                    match spec_decode_name(msg, pos + 1 + l, hops) {
                        NameDecode::Labels { labels, lin } => NameDecode::Labels {
                            labels: seq![label] + labels,
                            lin: 1 + l + lin,
                        },
                        e => e,
                    }
                }
            }
        }
    }
}

/// How a partly-walked name extends to the whole one: the final labels
/// are those already read followed by whatever the rest of the walk
/// yields, and the rest's linear length counts only while no pointer has
/// been followed yet.  Errors pass through unchanged.
pub open spec fn spec_name_continues(
    rest: NameDecode,
    done: Seq<Seq<u8>>,
    counted: int,
    compressed: bool,
) -> NameDecode {
    match rest {
        NameDecode::Labels { labels, lin } => NameDecode::Labels {
            labels: done + labels,
            lin: if compressed {
                counted
            } else {
                counted + lin
            },
        },
        e => e,
    }
}

/// Decodes one question record from `message_bytes`, starting at
/// `offset`, the position of the first byte of its QNAME.
///
/// The name is read through [`spec_decode_name`]'s walk: labels are
/// collected into a [`Domain`], following compression pointers anywhere
/// in the message, while `bytes_read` counts only the caller's own linear
/// span — once a pointer has been followed it grows no further, since the
/// rest of the name lives elsewhere.  The 16-bit QTYPE and QCLASS that
/// follow the name are then read at the linear position after it and
/// always add 4 to `bytes_read`.
///
/// Every length and pointer taken from the buffer is bounds-checked, and
/// a pointer chain longer than the message itself is rejected as a loop,
/// so the decoder never faults and always returns.
pub fn parse_question(message_bytes: &[u8], offset: usize) -> (r: Result<
    QuestionParseData,
    QuestionTryFromError,
>)
    ensures
        ({
            let nd = spec_decode_name(message_bytes@, offset as int, message_bytes@.len() as nat);
            &&& (nd matches NameDecode::Labels { labels, lin } ==> {
                &&& (offset + lin + 4 <= message_bytes@.len() ==> (r matches Ok(d) && {
                    &&& d.question.q_name@ == labels.map_values(|l: Seq<u8>| ascii_chars_of(l))
                    &&& d.question.q_name.wf()
                    &&& d.question.q_type.value == spec_u16_from_be(
                        message_bytes@[offset + lin],
                        message_bytes@[offset + lin + 1],
                    )
                    &&& d.question.q_class.value == spec_u16_from_be(
                        message_bytes@[offset + lin + 2],
                        message_bytes@[offset + lin + 3],
                    )
                    &&& d.bytes_read == lin + 4
                }))
                &&& (offset + lin + 4 > message_bytes@.len() ==> r == Err::<
                    QuestionParseData,
                    QuestionTryFromError,
                >(QuestionTryFromError::TruncatedMessage))
            })
            &&& (nd matches NameDecode::BadLabel { label } ==> (r matches Err(e) && (e matches
                QuestionTryFromError::Domain(de) && label_error_matches(label, de))))
            &&& (nd is Truncated ==> r == Err::<QuestionParseData, QuestionTryFromError>(
                QuestionTryFromError::TruncatedMessage,
            ))
            &&& (nd is BadPointer ==> r == Err::<QuestionParseData, QuestionTryFromError>(
                QuestionTryFromError::InvalidPointerTarget,
            ))
            &&& (nd is PointerLoop ==> r == Err::<QuestionParseData, QuestionTryFromError>(
                QuestionTryFromError::CompressionLoopDetected,
            ))
        }),
{
    let ghost msg = message_bytes@;
    let len = message_bytes.len();
    let ghost budget0 = msg.len() as nat;
    let ghost whole = spec_decode_name(msg, offset as int, budget0);
    if offset >= len {
        return Err(QuestionTryFromError::TruncatedMessage);
    }
    let mut q_name = Domain::new();
    let mut pos = offset;
    let mut hops: usize = len;
    let mut bytes_read: usize = 0;
    let mut q_pos = offset;
    let mut using_compression = false;
    let ghost mut done: Seq<Seq<u8>> = Seq::empty();
    proof {
        assert(q_name@ =~~= done.map_values(|l: Seq<u8>| ascii_chars_of(l)));
    }
    loop
        invariant_except_break
            msg == message_bytes@,
            len == msg.len(),
            budget0 == msg.len() as nat,
            whole == spec_decode_name(msg, offset as int, budget0),
            pos <= len,
            hops <= len,
            offset < len,
            q_pos <= len,
            q_name@ == done.map_values(|l: Seq<u8>| ascii_chars_of(l)),
            forall|k: int| 0 <= k < done.len() ==> is_label_bytes(#[trigger] done[k]),
            !using_compression ==> offset <= pos && bytes_read == pos - offset,
            using_compression ==> q_pos == offset + bytes_read,
            whole == spec_name_continues(
                spec_decode_name(msg, pos as int, hops as nat),
                done,
                bytes_read as int,
                using_compression,
            ),
        ensures
            msg == message_bytes@,
            len == msg.len(),
            budget0 == msg.len() as nat,
            whole == spec_decode_name(msg, offset as int, budget0),
            offset < len,
            q_pos <= len,
            q_pos == offset + bytes_read,
            q_name@ == done.map_values(|l: Seq<u8>| ascii_chars_of(l)),
            forall|k: int| 0 <= k < done.len() ==> is_label_bytes(#[trigger] done[k]),
            whole == (NameDecode::Labels { labels: done, lin: bytes_read as int }),
        decreases hops, len - pos,
    {
        if pos >= len {
            proof {
                assert(spec_decode_name(msg, pos as int, hops as nat) is Truncated);
            }
            return Err(QuestionTryFromError::TruncatedMessage);
        }
        let b = message_bytes[pos];
        if b >= 192 {
            if pos + 1 >= len {
                proof {
                    assert(spec_decode_name(msg, pos as int, hops as nat) is Truncated);
                }
                return Err(QuestionTryFromError::TruncatedMessage);
            }
            let target = ((b - 192) as usize) * 256 + (message_bytes[pos + 1] as usize);
            if target >= len {
                proof {
                    assert(spec_decode_name(msg, pos as int, hops as nat) is BadPointer);
                }
                return Err(QuestionTryFromError::InvalidPointerTarget);
            }
            if hops == 0 {
                proof {
                    assert(spec_decode_name(msg, pos as int, hops as nat) is PointerLoop);
                }
                return Err(QuestionTryFromError::CompressionLoopDetected);
            }
            proof {
                let rest2 = spec_decode_name(msg, target as int, (hops - 1) as nat);
                match rest2 {
                    NameDecode::Labels { labels, lin } => {
                        assert(spec_decode_name(msg, pos as int, hops as nat)
                            == (NameDecode::Labels { labels, lin: 2 }));
                    },
                    _ => {
                        assert(spec_decode_name(msg, pos as int, hops as nat) == rest2);
                    },
                }
            }
            if !using_compression {
                bytes_read = bytes_read + 2;
                q_pos = pos + 2;
                using_compression = true;
            }
            pos = target;
            hops = hops - 1;
        } else if b == 0 {
            proof {
                assert(spec_decode_name(msg, pos as int, hops as nat) == (NameDecode::Labels {
                    labels: Seq::<Seq<u8>>::empty(),
                    lin: 1,
                }));
                assert(done + Seq::<Seq<u8>>::empty() =~~= done);
            }
            pos = pos + 1;
            if !using_compression {
                bytes_read = bytes_read + 1;
                q_pos = pos;
            }
            break ;
        } else {
            let l = b as usize;
            if l > len - (pos + 1) {
                proof {
                    assert(spec_decode_name(msg, pos as int, hops as nat) is Truncated);
                }
                return Err(QuestionTryFromError::TruncatedMessage);
            }
            let label_slice = vstd::slice::slice_subrange(message_bytes, pos + 1, pos + 1 + l);
            let ghost label = msg.subrange(pos as int + 1, pos as int + 1 + l as int);
            proof {
                let rest2 = spec_decode_name(msg, pos as int + 1 + l as int, hops as nat);
                if is_label_bytes(label) {
                    match rest2 {
                        NameDecode::Labels { labels, lin } => {
                            assert(spec_decode_name(msg, pos as int, hops as nat)
                                == (NameDecode::Labels {
                                labels: seq![label] + labels,
                                lin: 1 + l + lin,
                            }));
                            assert(done + (seq![label] + labels) =~~= done.push(label) + labels);
                        },
                        _ => {
                            assert(spec_decode_name(msg, pos as int, hops as nat) == rest2);
                        },
                    }
                } else {
                    assert(spec_decode_name(msg, pos as int, hops as nat) == (NameDecode::BadLabel {
                        label,
                    }));
                }
            }
            match q_name.add_label(label_slice) {
                Ok(_) => {
                    proof {
                        done = done.push(label);
                        assert(q_name@ =~~= done.map_values(|x: Seq<u8>| ascii_chars_of(x)));
                    }
                    pos = pos + 1 + l;
                    if !using_compression {
                        bytes_read = bytes_read + 1 + l;
                    }
                },
                Err(e) => {
                    return Err(QuestionTryFromError::Domain(e));
                },
            }
        }
    }
    if len - q_pos < 4 {
        return Err(QuestionTryFromError::TruncatedMessage);
    }
    let q_type_raw = (message_bytes[q_pos] as u16) * 256 + (message_bytes[q_pos + 1] as u16);
    let q_type = QType::new(q_type_raw);
    q_pos = q_pos + 2;
    bytes_read = bytes_read + 2;
    let q_class_raw = (message_bytes[q_pos] as u16) * 256 + (message_bytes[q_pos + 1] as u16);
    let q_class = QClass::new(q_class_raw);
    bytes_read = bytes_read + 2;
    proof {
        assert forall|k: int| 0 <= k < q_name@.len() implies crate::domain::name::is_label_chars(
            #[trigger] q_name@[k],
        ) by {
            crate::domain::name::lemma_label_bytes_chars(done[k]);
        }
    }
    let question = Question { q_name, q_type, q_class };
    Ok(QuestionParseData { question, bytes_read })
}

} // verus!
