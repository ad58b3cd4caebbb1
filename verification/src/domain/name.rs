//! The RFC 1034, Section 3.5 label grammar and the [`Domain`] type.
//!
//! A label is a byte string of length 1 to 63 that starts with an ASCII
//! letter, ends with an ASCII letter or digit, and contains only ASCII
//! letters, digits, and hyphens in between.  A domain name is an ordered
//! sequence of labels, rendered as a string by joining the labels with `.`.

use crate::domain::error::TryFromError;
use vstd::prelude::*;
use vstd::utf8::{
    decode_utf8, encode_utf8, encode_utf8_decode_utf8, encode_utf8_valid_utf8, is_ascii_chars,
    is_ascii_chars_encode_utf8, valid_utf8,
};

verus! {

/// Longest allowed label, in bytes.
pub const MAX_LABEL_LENGTH: usize = 63;

/// True when the byte is an ASCII letter.
pub open spec fn is_letter_byte(b: u8) -> bool {
    (65 <= b && b <= 90) || (97 <= b && b <= 122)
}

/// True when the byte is an ASCII digit.
pub open spec fn is_digit_byte(b: u8) -> bool {
    48 <= b && b <= 57
}

/// True when the byte is an ASCII letter, digit, or hyphen
/// (the `ldh` alphabet of RFC 1034, Section 3.5).
pub open spec fn is_ldh_byte(b: u8) -> bool {
    is_letter_byte(b) || is_digit_byte(b) || b == 45
}

/// True when every byte of the sequence is a letter, digit, or hyphen.
/// The empty sequence is vacuously an `ldh-str`.
pub open spec fn is_ldh_str_bytes(s: Seq<u8>) -> bool {
    forall|i: int| 0 <= i < s.len() ==> is_ldh_byte(#[trigger] s[i])
}

/// The label grammar over raw bytes: length 1 to 63, first byte a letter,
/// last byte a letter or digit, interior bytes letters, digits, or hyphens.
/// A single-byte label must be a letter, since its first and last byte
/// coincide.
pub open spec fn is_label_bytes(s: Seq<u8>) -> bool {
    &&& 1 <= s.len() <= MAX_LABEL_LENGTH
    &&& is_letter_byte(s[0])
    &&& (is_letter_byte(s[s.len() - 1]) || is_digit_byte(s[s.len() - 1]))
    &&& forall|i: int| 1 <= i < s.len() - 1 ==> is_ldh_byte(#[trigger] s[i])
}

/// Checks whether the byte slice is a valid DNS `ldh-str`: a string of
/// ASCII letters, digits and hyphens (RFC 1034, Section 3.5).
pub fn bytes_are_ldh_str(bytes: &[u8]) -> (r: bool)
    ensures
        r == is_ldh_str_bytes(bytes@),
{
    let n = bytes.len();
    let mut i: usize = 0;
    while i < n
        invariant
            n == bytes@.len(),
            0 <= i <= n,
            forall|j: int| 0 <= j < i ==> is_ldh_byte(#[trigger] bytes@[j]),
        decreases n - i,
    {
        let b = bytes[i];
        if !((65 <= b && b <= 90) || (97 <= b && b <= 122) || (48 <= b && b <= 57)
            || b == 45) {
            return false;
        }
        i = i + 1;
    }
    true
}

/// Checks whether the byte slice is a valid DNS label: length 1 to 63,
/// first byte a letter, last byte a letter or digit, interior bytes
/// letters, digits and hyphens (RFC 1034, Section 3.5).
pub fn bytes_are_label(bytes: &[u8]) -> (r: bool)
    ensures
        r == is_label_bytes(bytes@),
{
    let n = bytes.len();
    if n == 0 || n > MAX_LABEL_LENGTH {
        return false;
    }
    let first = bytes[0];
    if !(65 <= first && first <= 90 || 97 <= first && first <= 122) {
        return false;
    }
    let last = bytes[n - 1];
    if !(65 <= last && last <= 90 || 97 <= last && last <= 122 || 48 <= last
        && last <= 57) {
        return false;
    }
    let mut i: usize = 1;
    while i < n - 1
        invariant
            1 <= n == bytes@.len(),
            1 <= i <= n,
            forall|j: int| 1 <= j < i ==> is_ldh_byte(#[trigger] bytes@[j]),
        decreases n - i,
    {
        let b = bytes[i];
        if !((65 <= b && b <= 90) || (97 <= b && b <= 122) || (48 <= b && b <= 57)
            || b == 45) {
            return false;
        }
        i = i + 1;
    }
    true
}

/// The character sequence that an ASCII byte sequence decodes to: one
/// character per byte, with the same code point.
pub open spec fn ascii_chars_of(s: Seq<u8>) -> Seq<char> {
    s.map_values(|b: u8| b as char)
}

/// True when the character is an ASCII letter.
pub open spec fn is_letter_char(c: char) -> bool {
    ('A' <= c && c <= 'Z') || ('a' <= c && c <= 'z')
}

/// True when the character is an ASCII digit.
pub open spec fn is_digit_char(c: char) -> bool {
    '0' <= c && c <= '9'
}

/// True when the character is an ASCII letter, digit, or hyphen.
pub open spec fn is_ldh_char(c: char) -> bool {
    is_letter_char(c) || is_digit_char(c) || c == '-'
}

/// The label grammar over text: the character-for-character counterpart of
/// [`is_label_bytes`], used to state what the labels stored inside a
/// [`Domain`] look like.
pub open spec fn is_label_chars(s: Seq<char>) -> bool {
    &&& 1 <= s.len() <= MAX_LABEL_LENGTH
    &&& is_letter_char(s[0])
    &&& (is_letter_char(s[s.len() - 1]) || is_digit_char(s[s.len() - 1]))
    &&& forall|i: int| 1 <= i < s.len() - 1 ==> is_ldh_char(#[trigger] s[i])
}

/// Every byte of a grammar-valid label is ASCII.
pub proof fn lemma_label_bytes_ascii(s: Seq<u8>)
    requires
        is_label_bytes(s),
    ensures
        forall|i: int| 0 <= i < s.len() ==> #[trigger] s[i] < 128,
{
}

/// The byte-level and character-level grammars agree on ASCII input.
pub proof fn lemma_label_bytes_chars(s: Seq<u8>)
    ensures
        is_label_bytes(s) <==> is_label_chars(ascii_chars_of(s)),
{
    let chars = ascii_chars_of(s);
    assert(chars.len() == s.len());
    assert forall|i: int| 0 <= i < s.len() implies (is_ldh_byte(#[trigger] s[i]) == is_ldh_char(
        chars[i],
    ) && is_letter_byte(s[i]) == is_letter_char(chars[i]) && is_digit_byte(s[i]) == is_digit_char(
        chars[i],
    )) by {
        assert(chars[i] == s[i] as char);
    }
}

/// An all-ASCII byte sequence is valid UTF-8 and decodes to one character
/// per byte.
pub proof fn lemma_ascii_decode(s: Seq<u8>)
    requires
        forall|i: int| 0 <= i < s.len() ==> #[trigger] s[i] < 128,
    ensures
        valid_utf8(s),
        decode_utf8(s) == ascii_chars_of(s),
{
    let chars = ascii_chars_of(s);
    assert(forall|i: int| 0 <= i < s.len() ==> #[trigger] chars[i] == s[i] as char);
    assert(is_ascii_chars(chars));
    is_ascii_chars_encode_utf8(chars);
    assert(encode_utf8(chars) =~= s);
    encode_utf8_valid_utf8(chars);
    encode_utf8_decode_utf8(chars);
}

/// A grammar-valid label is valid UTF-8 and decodes to one character per
/// byte.
pub proof fn lemma_label_bytes_utf8(s: Seq<u8>)
    requires
        is_label_bytes(s),
    ensures
        valid_utf8(s),
        decode_utf8(s) == ascii_chars_of(s),
{
    lemma_label_bytes_ascii(s);
    lemma_ascii_decode(s);
}

/// Relates a raw dot-separated segment to the error that parsing it as a
/// label reports: the segment is first decoded as UTF-8, then checked for
/// emptiness, then for length, then against the grammar.
pub open spec fn label_error_matches(seg: Seq<u8>, e: TryFromError) -> bool {
    match e {
        TryFromError::LabelInvalidEncoding(_) => !valid_utf8(seg),
        TryFromError::LabelEmpty => valid_utf8(seg) && seg.len() == 0,
        TryFromError::LabelTooLong(s) => valid_utf8(seg) && s@ == decode_utf8(seg) && seg.len()
            > MAX_LABEL_LENGTH,
        TryFromError::LabelInvalidFormat(s) => valid_utf8(seg) && s@ == decode_utf8(seg) && 1
            <= seg.len() <= MAX_LABEL_LENGTH && !is_label_bytes(seg),
        TryFromError::DomainEmpty => false,
    }
}

/// Relies on `String::from_utf8`: it returns `Ok` exactly when the bytes
/// are a valid UTF-8 encoding, and the returned string is their decoding.
#[verifier::external_body]
fn utf8_to_string(bytes: &[u8]) -> (r: Result<String, std::string::FromUtf8Error>)
    ensures
        r is Ok <==> valid_utf8(bytes@),
        r matches Ok(s) ==> s@ == decode_utf8(bytes@),
{
    String::from_utf8(bytes.to_vec())
}

/// The dot byte (`.`) that separates labels in a rendered domain name.
pub const LABEL_SEPARATOR: u8 = 46;

/// Splits a byte sequence at every dot byte.  The result always has at
/// least one segment; an empty input yields one empty segment, and a
/// leading, trailing, or doubled dot yields an empty segment in the
/// corresponding place.
pub open spec fn split_on_dots(s: Seq<u8>) -> Seq<Seq<u8>>
    decreases s.len(),
{
    if s.len() == 0 {
        seq![Seq::<u8>::empty()]
    } else if s[0] == LABEL_SEPARATOR {
        seq![Seq::<u8>::empty()] + split_on_dots(s.drop_first())
    } else {
        let rest = split_on_dots(s.drop_first());
        seq![seq![s[0]] + rest[0]] + rest.drop_first()
    }
}

/// Joins label texts with dots: the canonical string form of a domain.
pub open spec fn join_with_dots(ls: Seq<Seq<char>>) -> Seq<char>
    decreases ls.len(),
{
    if ls.len() == 0 {
        Seq::<char>::empty()
    } else if ls.len() == 1 {
        ls[0]
    } else {
        ls[0] + seq!['.'] + join_with_dots(ls.drop_first())
    }
}

/// Splitting never yields an empty list of segments.
pub proof fn lemma_split_nonempty(s: Seq<u8>)
    ensures
        split_on_dots(s).len() >= 1,
    decreases s.len(),
{
    if s.len() > 0 {
        lemma_split_nonempty(s.drop_first());
    }
}

/// How one more byte extends a split: a dot opens a new empty segment,
/// any other byte extends the last segment.
pub proof fn lemma_split_push(s: Seq<u8>, c: u8)
    ensures
        c == LABEL_SEPARATOR ==> split_on_dots(s.push(c)) == split_on_dots(s).push(
            Seq::<u8>::empty(),
        ),
        c != LABEL_SEPARATOR ==> split_on_dots(s.push(c)) == split_on_dots(s).update(
            split_on_dots(s).len() - 1,
            split_on_dots(s).last().push(c),
        ),
    decreases s.len(),
{
    lemma_split_nonempty(s);
    if s.len() == 0 {
        let u = s.push(c);
        assert(u.len() == 1 && u[0] == c);
        assert(u.drop_first() =~= Seq::<u8>::empty());
        assert(split_on_dots(u.drop_first()) == seq![Seq::<u8>::empty()]);
        assert(split_on_dots(s) == seq![Seq::<u8>::empty()]);
        if c == LABEL_SEPARATOR {
            assert(split_on_dots(u) =~~= split_on_dots(s).push(Seq::<u8>::empty()));
        } else {
            assert(split_on_dots(u) =~~= split_on_dots(s).update(
                0,
                split_on_dots(s).last().push(c),
            ));
        }
    } else {
        let t = s.drop_first();
        assert(s.push(c).drop_first() =~= t.push(c));
        lemma_split_push(t, c);
        lemma_split_nonempty(t);
        if c == LABEL_SEPARATOR {
            assert(split_on_dots(s.push(c)) =~= split_on_dots(s).push(Seq::<u8>::empty()));
        } else {
            assert(split_on_dots(s.push(c)) =~= split_on_dots(s).update(
                split_on_dots(s).len() - 1,
                split_on_dots(s).last().push(c),
            ));
        }
    }
}

/// How one more label extends a join.
pub proof fn lemma_join_push(ls: Seq<Seq<char>>, l: Seq<char>)
    ensures
        ls.len() == 0 ==> join_with_dots(ls.push(l)) == l,
        ls.len() > 0 ==> join_with_dots(ls.push(l)) == join_with_dots(ls) + seq!['.'] + l,
    decreases ls.len(),
{
    if ls.len() == 0 {
        assert(join_with_dots(ls.push(l)) == ls.push(l)[0]);
        assert(ls.push(l)[0] == l);
    } else {
        let t = ls.drop_first();
        assert(ls.push(l).drop_first() =~= t.push(l));
        lemma_join_push(t, l);
        if t.len() == 0 {
            assert(ls[0] == join_with_dots(ls));
            assert(join_with_dots(ls.push(l)) == ls.push(l)[0] + seq!['.'] + join_with_dots(
                t.push(l),
            ));
        } else {
            assert(join_with_dots(ls) == ls[0] + seq!['.'] + join_with_dots(t));
            assert((ls[0] + seq!['.'] + (join_with_dots(t) + seq!['.'] + l)) =~= (ls[0]
                + seq!['.'] + join_with_dots(t)) + seq!['.'] + l);
        }
    }
}

/// True when every segment satisfies the label grammar.
pub open spec fn all_labels_valid(segs: Seq<Seq<u8>>) -> bool {
    forall|i: int| 0 <= i < segs.len() ==> is_label_bytes(#[trigger] segs[i])
}

/// True when `e` is the error for the first grammar-invalid segment of
/// `segs`: every earlier segment is valid, and `e` describes that segment's
/// failure.
pub open spec fn reports_first_invalid(segs: Seq<Seq<u8>>, e: TryFromError) -> bool {
    exists|i: int|
        {
            &&& 0 <= i < segs.len()
            &&& !is_label_bytes(#[trigger] segs[i])
            &&& label_error_matches(segs[i], e)
            &&& forall|j: int| 0 <= j < i ==> is_label_bytes(#[trigger] segs[j])
        }
}

/// Tries to decode a byte slice as one DNS label.
///
/// The bytes must be valid UTF-8 and satisfy the label grammar; the result
/// is the label text.  Each failure identifies what went wrong: invalid
/// UTF-8, an empty segment, a segment over [`MAX_LABEL_LENGTH`] bytes, or a
/// grammar violation, checked in that order.
pub fn parse_label(bytes: &[u8]) -> (r: Result<String, TryFromError>)
    ensures
        r is Ok <==> is_label_bytes(bytes@),
        r matches Ok(s) ==> s@ == ascii_chars_of(bytes@),
        r matches Err(e) ==> label_error_matches(bytes@, e),
{
    proof {
        if is_label_bytes(bytes@) {
            lemma_label_bytes_utf8(bytes@);
        }
    }
    let text = match utf8_to_string(bytes) {
        Ok(t) => t,
        Err(e) => {
            return Err(TryFromError::LabelInvalidEncoding(e));
        },
    };
    if bytes.len() == 0 {
        return Err(TryFromError::LabelEmpty);
    }
    if bytes.len() > MAX_LABEL_LENGTH {
        return Err(TryFromError::LabelTooLong(text));
    }
    if bytes_are_label(bytes) {
        Ok(text)
    } else {
        Err(TryFromError::LabelInvalidFormat(text))
    }
}

/// Joining the split of any byte sequence with dots restores its text,
/// character for character.
pub proof fn lemma_join_split(s: Seq<u8>)
    ensures
        join_with_dots(split_on_dots(s).map_values(|seg: Seq<u8>| ascii_chars_of(seg)))
            == ascii_chars_of(s),
    decreases s.len(),
{
    let f = |seg: Seq<u8>| ascii_chars_of(seg);
    if s.len() == 0 {
        assert(split_on_dots(s) == seq![Seq::<u8>::empty()]);
        assert(split_on_dots(s).map_values(f) =~~= seq![Seq::<char>::empty()]);
        assert(ascii_chars_of(s) =~= Seq::<char>::empty());
    } else {
        let t = s.drop_first();
        lemma_join_split(t);
        lemma_split_nonempty(t);
        let mt = split_on_dots(t).map_values(f);
        let ms = split_on_dots(s).map_values(f);
        if s[0] == LABEL_SEPARATOR {
            assert(ms =~~= seq![Seq::<char>::empty()] + mt);
            assert(ms.drop_first() =~~= mt);
            assert(join_with_dots(ms) == Seq::<char>::empty() + seq!['.'] + join_with_dots(mt));
            assert(ascii_chars_of(s) =~= Seq::<char>::empty() + seq!['.'] + ascii_chars_of(t));
        } else {
            let r = split_on_dots(t);
            assert(ms[0] == f(seq![s[0]] + r[0]));
            assert(f(seq![s[0]] + r[0]) =~= seq![s[0] as char] + f(r[0]));
            assert(ascii_chars_of(s) =~= seq![s[0] as char] + ascii_chars_of(t));
            if r.len() == 1 {
                assert(ms =~~= seq![seq![s[0] as char] + f(r[0])]);
                assert(join_with_dots(ms) == ms[0]);
                assert(join_with_dots(mt) == f(r[0]));
            } else {
                assert(ms.drop_first() =~~= mt.drop_first());
                assert(join_with_dots(ms) == ms[0] + seq!['.'] + join_with_dots(ms.drop_first()));
                assert(join_with_dots(mt) == mt[0] + seq!['.'] + join_with_dots(mt.drop_first()));
                assert((seq![s[0] as char] + f(r[0])) + seq!['.'] + join_with_dots(
                    mt.drop_first(),
                ) =~= seq![s[0] as char] + (f(r[0]) + seq!['.'] + join_with_dots(
                    mt.drop_first(),
                )));
            }
        }
    }
}

/// Round-trip law: for every byte string whose dot-separated segments all
/// satisfy the label grammar, [`Domain::try_from`] succeeds (the input is
/// necessarily non-empty), and [`Domain::to_string`] on its result renders
/// exactly the input text.  The two function contracts reduce that claim
/// to the equality stated here.
pub proof fn lemma_parse_render_round_trip(b: Seq<u8>)
    requires
        all_labels_valid(split_on_dots(b)),
    ensures
        b.len() > 0,
        join_with_dots(split_on_dots(b).map_values(|seg: Seq<u8>| ascii_chars_of(seg)))
            == ascii_chars_of(b),
{
    if b.len() == 0 {
        assert(split_on_dots(b) == seq![Seq::<u8>::empty()]);
        assert(is_label_bytes(split_on_dots(b)[0]));
    }
    lemma_join_split(b);
}

/// Length bounds of the label grammar: no empty label, no label over 63
/// bytes, and exactly 63 bytes are accepted when the boundary and interior
/// characters are in order.
pub proof fn lemma_label_length_bounds(s: Seq<u8>)
    ensures
        s.len() == 0 ==> !is_label_bytes(s),
        s.len() == 64 ==> !is_label_bytes(s),
        (s.len() == 63 && is_letter_byte(s[0]) && (is_letter_byte(s[62]) || is_digit_byte(s[62]))
            && (forall|i: int| 1 <= i < 62 ==> is_ldh_byte(#[trigger] s[i]))) ==> is_label_bytes(
            s,
        ),
{
}

/// Representation of a DNS domain name.
///
/// A domain name consists of an ordered sequence of labels, most-specific
/// first.  Each label satisfies the RFC 1034 grammar: it starts with a
/// letter, ends with a letter or digit, and contains only letters, digits,
/// and hyphens in between.  The canonical string form joins the labels
/// with dots: `www.example.com`.
///
/// A domain is built either by [`Domain::try_from`] /
/// [`Domain::try_from_string`], which split their whole input on dots, or
/// incrementally through [`Domain::add_label`] while walking a
/// compression-pointer chain inside a message.
#[derive(Debug, PartialEq)]
pub struct Domain {
    labels: Vec<String>,
}

impl View for Domain {
    type V = Seq<Seq<char>>;

    closed spec fn view(&self) -> Seq<Seq<char>> {
        self.labels.deep_view()
    }
}

impl Domain {
    /// True when every stored label satisfies the label grammar.
    pub open spec fn wf(&self) -> bool {
        forall|i: int| 0 <= i < self@.len() ==> is_label_chars(#[trigger] self@[i])
    }

    /// Creates a domain with no labels yet, ready for incremental
    /// construction with [`Domain::add_label`].
    pub fn new() -> (d: Domain)
        ensures
            d@ == Seq::<Seq<char>>::empty(),
    {
        let d = Domain { labels: Vec::new() };
        proof {
            assert(d@ =~= Seq::<Seq<char>>::empty());
        }
        d
    }

    /// Validates one raw label and appends it.  On failure the domain is
    /// left unchanged and the error describes the offending label, exactly
    /// as [`parse_label`] reports it.
    pub fn add_label(&mut self, bytes: &[u8]) -> (r: Result<(), TryFromError>)
        ensures
            r is Ok <==> is_label_bytes(bytes@),
            r is Ok ==> final(self)@ == old(self)@.push(ascii_chars_of(bytes@)),
            r is Err ==> final(self)@ == old(self)@,
            r matches Err(e) ==> label_error_matches(bytes@, e),
    {
        match parse_label(bytes) {
            Ok(text) => {
                self.labels.push(text);
                proof {
                    assert(self@ =~= old(self)@.push(ascii_chars_of(bytes@)));
                }
                Ok(())
            },
            Err(e) => Err(e),
        }
    }

    /// Tries to convert a byte slice into a `Domain`.
    ///
    /// The input is split on every dot byte; each segment must parse as a
    /// label.  An empty input is rejected as `DomainEmpty`; otherwise the
    /// first invalid segment determines the error, exactly as
    /// [`parse_label`] reports it.
    pub fn try_from(value: &[u8]) -> (r: Result<Domain, TryFromError>)
        ensures
            value@.len() == 0 ==> r == Err::<Domain, TryFromError>(TryFromError::DomainEmpty),
            value@.len() > 0 ==> {
                &&& r is Ok <==> all_labels_valid(split_on_dots(value@))
                &&& (r matches Ok(d) ==> d@ == split_on_dots(value@).map_values(
                    |seg: Seq<u8>| ascii_chars_of(seg),
                ) && d.wf())
                &&& (r matches Err(e) ==> reports_first_invalid(split_on_dots(value@), e))
            },
    {
        if value.len() == 0 {
            return Err(TryFromError::DomainEmpty);
        }
        let n = value.len();
        let mut segs: Vec<Vec<u8>> = Vec::new();
        let mut cur: Vec<u8> = Vec::new();
        let mut i: usize = 0;
        proof {
            assert(value@.take(0) =~= Seq::<u8>::empty());
            assert(split_on_dots(value@.take(0)) =~~= segs@.map_values(|v: Vec<u8>| v@).push(
                cur@,
            ));
        }
        while i < n
            invariant
                n == value@.len(),
                0 <= i <= n,
                split_on_dots(value@.take(i as int)) == segs@.map_values(|v: Vec<u8>| v@).push(
                    cur@,
                ),
            decreases n - i,
        {
            proof {
                assert(value@.take(i + 1) =~= value@.take(i as int).push(value@[i as int]));
                lemma_split_push(value@.take(i as int), value@[i as int]);
            }
            let b = value[i];
            if b == LABEL_SEPARATOR {
                segs.push(cur);
                cur = Vec::new();
                proof {
                    assert(split_on_dots(value@.take(i + 1)) =~~= segs@.map_values(
                        |v: Vec<u8>| v@,
                    ).push(cur@));
                }
            } else {
                cur.push(b);
                proof {
                    assert(split_on_dots(value@.take(i + 1)) =~~= segs@.map_values(
                        |v: Vec<u8>| v@,
                    ).push(cur@));
                }
            }
            i = i + 1;
        }
        proof {
            assert(value@.take(n as int) =~= value@);
        }
        segs.push(cur);
        let ghost ssegs = segs@.map_values(|v: Vec<u8>| v@);
        proof {
            assert(split_on_dots(value@) =~~= ssegs);
        }
        let m = segs.len();
        let mut labels: Vec<String> = Vec::new();
        let mut j: usize = 0;
        while j < m
            invariant
                value@.len() > 0,
                m == segs@.len(),
                0 <= j <= m,
                ssegs == segs@.map_values(|v: Vec<u8>| v@),
                split_on_dots(value@) == ssegs,
                labels@.len() == j,
                forall|k: int| 0 <= k < j ==> is_label_bytes(#[trigger] ssegs[k]),
                forall|k: int|
                    0 <= k < j ==> #[trigger] labels.deep_view()[k] == ascii_chars_of(ssegs[k]),
            decreases m - j,
        {
            proof {
                assert(ssegs[j as int] == segs@[j as int]@);
            }
            let seg: &Vec<u8> = &segs[j];
            proof {
                assert(seg@ == segs@[j as int]@);
            }
            match parse_label(seg.as_slice()) {
                Ok(text) => {
                    let ghost labels0 = labels;
                    labels.push(text);
                    proof {
                        assert forall|k: int|
                            0 <= k < j + 1 implies #[trigger] labels.deep_view()[k]
                            == ascii_chars_of(ssegs[k]) by {
                            assert(labels.deep_view()[k] == labels@[k]@);
                            if k < j {
                                assert(labels@[k] == labels0@[k]);
                                assert(labels0.deep_view()[k] == labels0@[k]@);
                                assert(labels0.deep_view()[k] == ascii_chars_of(ssegs[k]));
                            } else {
                                assert(labels@[k]@ == ascii_chars_of(ssegs[k]));
                            }
                        }
                    }
                },
                Err(e) => {
                    proof {
                        assert(!is_label_bytes(ssegs[j as int]) && label_error_matches(
                            ssegs[j as int],
                            e,
                        ));
                        assert(reports_first_invalid(ssegs, e));
                    }
                    return Err(e);
                },
            }
            j = j + 1;
        }
        let d = Domain { labels };
        proof {
            assert forall|k: int| 0 <= k < d@.len() implies #[trigger] d@[k] == ascii_chars_of(
                ssegs[k],
            ) by {
                assert(labels.deep_view()[k] == ascii_chars_of(ssegs[k]));
            }
            assert(d@ =~~= split_on_dots(value@).map_values(|seg: Seq<u8>| ascii_chars_of(seg)));
            assert forall|k: int| 0 <= k < d@.len() implies is_label_chars(#[trigger] d@[k]) by {
                lemma_label_bytes_chars(ssegs[k]);
            }
        }
        Ok(d)
    }

    /// Tries to convert a text string into a `Domain` by validating its
    /// UTF-8 bytes with [`Domain::try_from`].
    pub fn try_from_string(value: String) -> (r: Result<Domain, TryFromError>)
        ensures
            ({
                let b = vstd::utf8::encode_utf8(value@);
                &&& b.len() == 0 ==> r == Err::<Domain, TryFromError>(TryFromError::DomainEmpty)
                &&& b.len() > 0 ==> {
                    &&& r is Ok <==> all_labels_valid(split_on_dots(b))
                    &&& (r matches Ok(d) ==> d@ == split_on_dots(b).map_values(
                        |seg: Seq<u8>| ascii_chars_of(seg),
                    ) && d.wf())
                    &&& (r matches Err(e) ==> reports_first_invalid(split_on_dots(b), e))
                }
            }),
    {
        Domain::try_from(value.as_str().as_bytes())
    }

    /// Renders the domain in its canonical string form, joining the labels
    /// with dots.
    pub fn to_string(&self) -> (r: String)
        ensures
            r@ == join_with_dots(self@),
    {
        let mut out = String::new();
        let m = self.labels.len();
        let mut i: usize = 0;
        while i < m
            invariant
                m == self.labels@.len(),
                m == self@.len(),
                0 <= i <= m,
                i == 0 ==> out@ == Seq::<char>::empty(),
                i > 0 ==> out@ == join_with_dots(self@.take(i as int)),
                forall|k: int| 0 <= k < m ==> #[trigger] self@[k] == self.labels@[k]@,
            decreases m - i,
        {
            proof {
                assert(self@.take(i + 1) =~= self@.take(i as int).push(self@[i as int]));
                lemma_join_push(self@.take(i as int), self@[i as int]);
                reveal_strlit(".");
            }
            if i > 0 {
                out.append(".");
            }
            out.append(self.labels[i].as_str());
            i = i + 1;
        }
        proof {
            assert(self@.take(m as int) =~= self@);
            if m == 0 {
                assert(join_with_dots(self@) == Seq::<char>::empty());
            }
        }
        out
    }
}

} // verus!
