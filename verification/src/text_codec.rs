//! `TextDecoder` and `TextEncoder`.

use vstd::prelude::*;
use vstd::utf8::{
    char_u32_cast, codepoint_width_3, decode_first_scalar, decode_utf8, encode_scalar, encode_utf8,
    encode_utf8_decode_utf8, encode_utf8_first_scalar, encode_utf8_valid_utf8, valid_utf8,
};

use crate::dom::impact::is_empty;
use crate::json::{
    json_member, json_member_text, json_object, json_object_text, json_quoted, json_string,
    objects_tell_their_members, tells,
};
use crate::text::{
    byte_length, lower_char, lowered, opt_text, same_text, slice_text, to_chars, to_lower,
};

verus! {

/// What a value handed to `decode` holds.
pub enum BufferSource {
    /// No value, `undefined` or `null`.
    Missing,
    /// The bytes of a byte array or a buffer; none where it is detached.
    Bytes(Option<Vec<u8>>),
    /// A view: what its buffer holds as a buffer and as a byte array, and the
    /// part of it that is viewed.
    View {
        array_buffer: Option<Vec<u8>>,
        typed_array: Option<Vec<u8>>,
        offset: usize,
        len: usize,
    },
    /// Anything else.
    Other,
}

/// The message for a value that holds no bytes.
pub open spec fn not_a_buffer() -> Seq<char> {
    "Failed to execute 'decode' on 'TextDecoder': The provided value is not of type '(ArrayBuffer or ArrayBufferView)'"@
}

/// The part of `all` that a view shows, where it lies inside.
pub open spec fn viewed(all: Option<Vec<u8>>, offset: usize, len: usize) -> Option<Seq<u8>> {
    match all {
        Some(b) => if offset + len <= b@.len() {
            Some(b@.subrange(offset as int, offset + len))
        } else {
            None
        },
        None => None,
    }
}

/// The bytes of a value, nothing where no value was given, or an error.
pub open spec fn source_bytes(source: BufferSource) -> Result<Option<Seq<u8>>, Seq<char>> {
    match source {
        BufferSource::Missing => Ok(None),
        BufferSource::Bytes(Some(b)) => Ok(Some(b@)),
        BufferSource::Bytes(None) => Ok(Some(Seq::empty())),
        BufferSource::View { array_buffer, typed_array, offset, len } => match viewed(
            array_buffer,
            offset,
            len,
        ) {
            Some(b) => Ok(Some(b)),
            None => match viewed(typed_array, offset, len) {
                Some(b) => Ok(Some(b)),
                None => Err(not_a_buffer()),
            },
        },
        BufferSource::Other => Err(not_a_buffer()),
    }
}

/// The end of a view can be computed.
pub open spec fn view_fits(source: BufferSource) -> bool {
    match source {
        BufferSource::View { array_buffer, typed_array, offset, len } => offset + len
            <= usize::MAX,
        _ => true,
    }
}

/// The result of extracting bytes over sequences.
pub open spec fn extracted(r: Result<Option<Vec<u8>>, String>) -> Result<
    Option<Seq<u8>>,
    Seq<char>,
> {
    match r {
        Ok(Some(v)) => Ok(Some(v@)),
        Ok(None) => Ok(None),
        Err(e) => Err(e@),
    }
}

fn copy_part(all: &Vec<u8>, from: usize, to: usize) -> (r: Vec<u8>)
    requires
        from <= to <= all@.len(),
    ensures
        r@ == all@.subrange(from as int, to as int),
{
    let mut out: Vec<u8> = Vec::new();
    let mut i: usize = from;
    while i < to
        invariant
            from <= i <= to <= all@.len(),
            out@ == all@.subrange(from as int, i as int),
        decreases to - i,
    {
        out.push(all[i]);
        i = i + 1;
    }
    out
}

fn view_part(all: &Option<Vec<u8>>, offset: usize, len: usize) -> (r: Option<Vec<u8>>)
    requires
        offset + len <= usize::MAX,
    ensures
        match r {
            Some(v) => viewed(*all, offset, len) == Some(v@),
            None => viewed(*all, offset, len) is None,
        },
{
    match all {
        Some(b) => {
            if offset + len <= b.len() {
                Some(copy_part(b, offset, offset + len))
            } else {
                None
            }
        },
        None => None,
    }
}

/// The bytes of a value handed to `decode`.
pub fn extract_bytes(source: &BufferSource) -> (r: Result<Option<Vec<u8>>, String>)
    requires
        view_fits(*source),
    ensures
        extracted(r) == source_bytes(*source),
{
    match source {
        BufferSource::Missing => Ok(None),
        BufferSource::Bytes(Some(b)) => {
            assert(b@.subrange(0, b@.len() as int) == b@);
            Ok(Some(copy_part(b, 0, b.len())))
        },
        BufferSource::Bytes(None) => Ok(Some(Vec::new())),
        BufferSource::View { array_buffer, typed_array, offset, len } => {
            match view_part(array_buffer, *offset, *len) {
                Some(v) => Ok(Some(v)),
                None => match view_part(typed_array, *offset, *len) {
                    Some(v) => Ok(Some(v)),
                    None => Err(
                        "Failed to execute 'decode' on 'TextDecoder': The provided value is not of type '(ArrayBuffer or ArrayBufferView)'".to_owned(),
                    ),
                },
            }
        },
        BufferSource::Other => Err(
            "Failed to execute 'decode' on 'TextDecoder': The provided value is not of type '(ArrayBuffer or ArrayBufferView)'".to_owned(),
        ),
    }
}

/// The name of the encoding that a label stands for, as
/// `encoding_rs::Encoding::for_label` finds it.
pub uninterp spec fn label_encoding(label: Seq<char>) -> Option<Seq<char>>;

/// `encoding_rs::Encoding::for_label`, with the name of what it finds.
#[verifier::external_body]
fn find_encoding(label: &str) -> (r: Option<String>)
    ensures
        opt_text(r) == label_encoding(label@),
{
    encoding_rs::Encoding::for_label(label.as_bytes()).map(|e| e.name().to_owned())
}

/// What decoding `bytes` under a label gives, malformed parts replaced.
pub uninterp spec fn decoded_text(label: Seq<char>, bytes: Seq<u8>) -> Option<Seq<char>>;

/// The bytes begin with the byte order mark of UTF-8.
pub open spec fn has_utf8_bom(bytes: Seq<u8>) -> bool {
    bytes.len() >= 3 && bytes[0] == 0xEF && bytes[1] == 0xBB && bytes[2] == 0xBF
}

/// `bytes` can be decoded without the size of the result overflowing.
pub open spec fn decodable(bytes: Seq<u8>) -> bool {
    bytes.len() <= isize::MAX / 8
}

/// `encoding_rs::Encoding::for_label` and `decode`: text for every label that
/// is known. Well-formed UTF-8 without a byte order mark decodes under UTF-8 to
/// the scalars that it encodes.
#[verifier::external_body]
fn decode_bytes(label: &str, bytes: &[u8]) -> (r: Option<String>)
    requires
        decodable(bytes@),
    ensures
        opt_text(r) == decoded_text(label@, bytes@),
        r is Some <==> label_encoding(label@) is Some,
        label_encoding(label@) == Some("UTF-8"@) && valid_utf8(bytes@) && !has_utf8_bom(bytes@)
            ==> opt_text(r) == Some(decode_utf8(bytes@)),
{
    encoding_rs::Encoding::for_label(label.as_bytes()).map(|e| e.decode(bytes).0.into_owned())
}

/// A decoder.
pub struct JsTextDecoder {
    pub encoding_name: String,
    pub fatal: bool,
    pub ignore_bom: bool,
}

/// What decoding does.
pub enum DecodeStep {
    /// It ends with a text.
    Text(String),
    /// It throws a `TypeError`.
    TypeError(String),
    /// It asks for the bytes to be decoded, with nothing for malformed ones.
    Fatal { encoding: String, ignore_bom: bool, bytes: Vec<u8> },
}

/// What decoding does, over sequences.
pub enum DecodeView {
    Text(Seq<char>),
    TypeError(Seq<char>),
    Fatal { encoding: Seq<char>, ignore_bom: bool, bytes: Seq<u8> },
}

impl DecodeStep {
    /// The step over sequences.
    pub open spec fn view(self) -> DecodeView {
        match self {
            DecodeStep::Text(s) => DecodeView::Text(s@),
            DecodeStep::TypeError(s) => DecodeView::TypeError(s@),
            DecodeStep::Fatal { encoding, ignore_bom, bytes } => DecodeView::Fatal {
                encoding: encoding@,
                ignore_bom,
                bytes: bytes@,
            },
        }
    }
}

/// The label, or the one that stands where none is given.
pub open spec fn label_or_default(label: Option<Seq<char>>) -> Seq<char> {
    match label {
        Some(l) => l,
        None => "utf-8"@,
    }
}

/// The message for a label that is not known.
pub open spec fn invalid_label(label: Seq<char>) -> Seq<char> {
    "Failed to construct 'TextDecoder': The encoding label provided ('"@ + label + "') is invalid."@
}

/// The decoder keeps the byte order mark at the start of `bytes`, which the
/// outside decoder takes off.
pub open spec fn keeps_bom(ignore_bom: bool, encoding: Option<Seq<char>>, bytes: Seq<u8>) -> bool {
    ignore_bom && encoding == Some("UTF-8"@) && has_utf8_bom(bytes)
}

/// The bytes that are handed to the outside decoder.
pub open spec fn handed_bytes(
    ignore_bom: bool,
    encoding: Option<Seq<char>>,
    bytes: Seq<u8>,
) -> Seq<u8> {
    if keeps_bom(ignore_bom, encoding, bytes) {
        bytes.skip(3)
    } else {
        bytes
    }
}

/// The text of a decoder that replaces malformed parts, given what the outside
/// decoder gave.
pub open spec fn marked_text(keep: bool, decoded: Seq<char>) -> Seq<char> {
    if keep {
        seq!['\u{FEFF}'] + decoded
    } else {
        decoded
    }
}

/// What a decoder does with a value. `encoding` is what its name stands for.
pub open spec fn decode_step(
    decoder: JsTextDecoder,
    source: BufferSource,
    encoding: Option<Seq<char>>,
    decoded: Seq<char>,
) -> DecodeView {
    match source_bytes(source) {
        Err(e) => DecodeView::TypeError(e),
        Ok(None) => DecodeView::Text(Seq::empty()),
        Ok(Some(bytes)) => if decoder.fatal {
            DecodeView::Fatal {
                encoding: decoder.encoding_name@,
                ignore_bom: decoder.ignore_bom,
                bytes,
            }
        } else {
            DecodeView::Text(
                marked_text(keeps_bom(decoder.ignore_bom, encoding, bytes), decoded),
            )
        },
    }
}

/// The bytes of a value, where there are any.
pub open spec fn given_bytes(source: BufferSource) -> Seq<u8> {
    match source_bytes(source) {
        Ok(Some(b)) => b,
        _ => Seq::empty(),
    }
}

/// Puts the byte order mark back where it is kept.
pub fn mark_text(keep: bool, decoded: String) -> (r: String)
    ensures
        r@ == marked_text(keep, decoded@),
{
    if keep {
        let mut s: String = String::new();
        s.push('\u{FEFF}');
        s.append(decoded.as_str());
        assert(s@ =~= seq!['\u{FEFF}'] + decoded@);
        s
    } else {
        decoded
    }
}

proof fn bom_is_the_mark(t: Seq<char>)
    requires
        has_utf8_bom(encode_utf8(t)),
    ensures
        t.len() > 0 && t[0] == '\u{FEFF}',
{
    assert(t.len() > 0);
    if t.len() > 0 {
        encode_utf8_first_scalar(t);
        assert(decode_first_scalar(encode_utf8(t)) == codepoint_width_3(0xEF, 0xBB, 0xBF));
        assert(codepoint_width_3(0xEF, 0xBB, 0xBF) == 0xFEFF) by (bit_vector);
        assert(t[0] as u32 == 0xFEFF);
        char_u32_cast(t[0], 0xFEFF);
    }
}

/// The decoder is one that replaces malformed parts, its name stands for
/// UTF-8, and the value holds the encoding of `t`, which has no byte order mark.
pub open spec fn reads_back(decoder: JsTextDecoder, source: BufferSource, t: Seq<char>) -> bool {
    &&& !decoder.fatal
    &&& label_encoding(decoder.encoding_name@) == Some("UTF-8"@)
    &&& source_bytes(source) == Ok::<Option<Seq<u8>>, Seq<char>>(Some(encode_utf8(t)))
    &&& t.len() == 0 || t[0] != '\u{FEFF}'
}

impl JsTextDecoder {
    /// A decoder for a label. `canonical` is the name of the encoding that the
    /// label stands for, where there is one; the options are those that were
    /// given.
    pub fn new(
        label: Option<String>,
        canonical: Option<String>,
        fatal: Option<bool>,
        ignore_bom: Option<bool>,
    ) -> (r: Result<Self, String>)
        ensures
            match r {
                Ok(d) => {
                    &&& canonical is Some && canonical->0@.len() > 0
                    &&& d.encoding_name@ == lowered(canonical->0@)
                    &&& d.fatal == (fatal == Some(true))
                    &&& d.ignore_bom == (ignore_bom == Some(true))
                },
                Err(e) => {
                    &&& canonical is None || canonical->0@.len() == 0
                    &&& e@ == invalid_label(label_or_default(opt_text(label)))
                },
            },
    {
        let name: String = match &canonical {
            Some(c) => to_lower(c.as_str()),
            None => String::new(),
        };
        if is_empty(name.as_str()) {
            let mut message: String =
                "Failed to construct 'TextDecoder': The encoding label provided ('".to_owned();
            match &label {
                Some(l) => message.append(l.as_str()),
                None => message.append("utf-8"),
            }
            message.append("') is invalid.");
            return Err(message);
        }
        let fatal: bool = match fatal {
            Some(v) => v,
            None => false,
        };
        let ignore_bom: bool = match ignore_bom {
            Some(v) => v,
            None => false,
        };
        Ok(JsTextDecoder { encoding_name: name, fatal, ignore_bom })
    }

    /// The name of the encoding.
    pub fn encoding(&self) -> (r: String)
        ensures
            r@ == self.encoding_name@,
    {
        self.encoding_name.as_str().to_owned()
    }

    /// Whether malformed bytes are an error.
    pub fn fatal(&self) -> (r: bool)
        ensures
            r == self.fatal,
    {
        self.fatal
    }

    /// Whether a byte order mark is kept.
    pub fn ignore_bom(&self) -> (r: bool)
        ensures
            r == self.ignore_bom,
    {
        self.ignore_bom
    }

    /// What decoding a value does.
    pub open spec fn decoding(self, source: BufferSource) -> DecodeView {
        let encoding: Option<Seq<char>> = label_encoding(self.encoding_name@);
        decode_step(
            self,
            source,
            encoding,
            input_text(
                decoded_text(
                    self.encoding_name@,
                    handed_bytes(self.ignore_bom, encoding, given_bytes(source)),
                ),
            ),
        )
    }

    /// Decodes a value. Under UTF-8 a text without a byte order mark comes back
    /// from its encoding as it was.
    pub fn decode(&self, source: &BufferSource) -> (r: DecodeStep)
        requires
            view_fits(*source),
            decodable(given_bytes(*source)),
            label_encoding(self.encoding_name@) is Some,
        ensures
            r@ == self.decoding(*source),
            forall|t: Seq<char>| #[trigger] reads_back(*self, *source, t) ==> r@ == DecodeView::Text(
                t,
            ),
    {
        match extract_bytes(source) {
            Err(e) => DecodeStep::TypeError(e),
            Ok(None) => DecodeStep::Text(String::new()),
            Ok(Some(bytes)) => {
                if self.fatal {
                    return DecodeStep::Fatal {
                        encoding: self.encoding_name.as_str().to_owned(),
                        ignore_bom: self.ignore_bom,
                        bytes,
                    };
                }
                let encoding: Option<String> = find_encoding(self.encoding_name.as_str());
                let utf8: bool = match &encoding {
                    Some(e) => same_text(e.as_str(), "UTF-8"),
                    None => false,
                };
                let keep: bool = self.ignore_bom && utf8 && bytes.len() >= 3 && bytes[0] == 0xEF
                    && bytes[1] == 0xBB && bytes[2] == 0xBF;
                let handed: Vec<u8> = if keep {
                    copy_part(&bytes, 3, bytes.len())
                } else {
                    copy_part(&bytes, 0, bytes.len())
                };
                assert(handed@ =~= handed_bytes(
                    self.ignore_bom,
                    label_encoding(self.encoding_name@),
                    bytes@,
                ));
                let decoded: Option<String> = decode_bytes(
                    self.encoding_name.as_str(),
                    handed.as_slice(),
                );
                proof {
                    assert forall|t: Seq<char>| #[trigger]
                        reads_back(*self, *source, t) implies decoded is Some && !keep
                        && decoded->0@ == t by {
                        encode_utf8_valid_utf8(t);
                        encode_utf8_decode_utf8(t);
                        if has_utf8_bom(encode_utf8(t)) {
                            bom_is_the_mark(t);
                        }
                    }
                }
                match decoded {
                    Some(text) => DecodeStep::Text(mark_text(keep, text)),
                    None => DecodeStep::Text(String::new()),
                }
            },
        }
    }

    /// Decodes a value where the name of the encoding is known; nothing where
    /// it is not.
    pub fn try_decode(&self, source: &BufferSource) -> (r: Option<DecodeStep>)
        requires
            view_fits(*source),
            decodable(given_bytes(*source)),
        ensures
            r is Some <==> label_encoding(self.encoding_name@) is Some,
            match r {
                Some(step) => step@ == self.decoding(*source),
                None => true,
            },
            forall|t: Seq<char>| #[trigger]
                reads_back(*self, *source, t) ==> r is Some && r->0@ == DecodeView::Text(t),
    {
        match find_encoding(self.encoding_name.as_str()) {
            Some(_) => Some(self.decode(source)),
            None => None,
        }
    }

    /// Ends a decoding that treats malformed bytes as an error, with what the
    /// bytes decoded to.
    pub fn finish_fatal(decoded: Option<String>) -> (r: DecodeStep)
        ensures
            match decoded {
                Some(s) => r@ == DecodeView::Text(s@),
                None => r@ == DecodeView::TypeError(
                    "Failed to execute 'decode' on 'TextDecoder': The encoded data was not valid."@,
                ),
            },
    {
        match decoded {
            Some(s) => DecodeStep::Text(s),
            None => DecodeStep::TypeError(
                "Failed to execute 'decode' on 'TextDecoder': The encoded data was not valid.".to_owned(),
            ),
        }
    }
}

/// The name of a decoder is not empty and holds no ASCII capital, and a decoder
/// that is made with that name as the canonical one has the same name.
pub proof fn decoder_names_are_lower_case(canonical: Seq<char>)
    requires
        canonical.len() > 0,
    ensures
        lowered(canonical).len() > 0,
        forall|i: int|
            0 <= i < lowered(canonical).len() ==> !('A' <= #[trigger] lowered(canonical)[i]
                && lowered(canonical)[i] <= 'Z'),
        lowered(lowered(canonical)) == lowered(canonical),
{
    assert forall|i: int| 0 <= i < canonical.len() implies !('A' <= #[trigger] lowered(canonical)[i]
        && lowered(canonical)[i] <= 'Z') by {
        let c: char = canonical[i];
        assert(lowered(canonical)[i] == lower_char(c));
    }
    assert(lowered(lowered(canonical)) =~= lowered(canonical));
}

/// An encoder.
pub struct JsTextEncoder {}

/// What `encodeInto` did: the UTF-16 units that it read, the bytes that it
/// wrote, and those bytes.
pub struct EncodeInto {
    pub read: usize,
    pub written: usize,
    pub bytes: Vec<u8>,
}

/// The length of a scalar in UTF-16 units.
pub open spec fn utf16_width(c: char) -> nat {
    if c as u32 >= 0x10000 {
        2
    } else {
        1
    }
}

/// The length of a text in UTF-16 units.
pub open spec fn utf16_length(s: Seq<char>) -> nat
    decreases s.len(),
{
    if s.len() == 0 {
        0
    } else {
        utf16_length(s.drop_last()) + utf16_width(s.last())
    }
}

/// The first `k` scalars of `s` are those that fit into `room` bytes.
pub open spec fn fills(s: Seq<char>, room: nat, k: nat) -> bool {
    &&& k <= s.len()
    &&& byte_length(s.take(k as int)) <= room
    &&& k < s.len() ==> byte_length(s.take(k as int + 1)) > room
}

fn utf8_width(c: char) -> (r: usize)
    ensures
        r == encode_scalar(c as u32).len(),
        1 <= r <= 4,
        r == 4 <==> c as u32 >= 0x10000,
{
    let v: u32 = c as u32;
    if v < 0x80 {
        1
    } else if v < 0x800 {
        2
    } else if v < 0x10000 {
        3
    } else {
        4
    }
}

proof fn encode_push(s: Seq<char>, c: char)
    ensures
        encode_utf8(s.push(c)) == encode_utf8(s) + encode_scalar(c as u32),
    decreases s.len(),
{
    reveal_with_fuel(encode_utf8, 2);
    if s.len() == 0 {
        assert(s.push(c).drop_first() =~= Seq::<char>::empty());
        assert(encode_utf8(s) =~= Seq::<u8>::empty());
        assert(encode_utf8(s.push(c)) =~= encode_scalar(c as u32));
    } else {
        encode_push(s.drop_first(), c);
        assert(s.push(c).drop_first() =~= s.drop_first().push(c));
        assert(encode_utf8(s.push(c)) =~= encode_utf8(s) + encode_scalar(c as u32));
    }
}

proof fn longer_prefix_takes_more(s: Seq<char>, j: int, k: int)
    requires
        0 <= j <= k <= s.len(),
    ensures
        byte_length(s.take(j)) <= byte_length(s.take(k)),
    decreases k - j,
{
    if j < k {
        longer_prefix_takes_more(s, j, k - 1);
        assert(s.take(k) =~= s.take(k - 1).push(s[k - 1]));
        encode_push(s.take(k - 1), s[k - 1]);
    }
}

/// What fits is settled: two prefixes that fill the same room are one.
pub proof fn filling_is_unique(s: Seq<char>, room: nat, j: nat, k: nat)
    requires
        fills(s, room, j),
        fills(s, room, k),
    ensures
        j == k,
{
    if j < k {
        longer_prefix_takes_more(s, j as int + 1, k as int);
    } else if k < j {
        longer_prefix_takes_more(s, k as int + 1, j as int);
    }
}

/// A room as large as the text takes all of it.
pub proof fn enough_room_takes_all(s: Seq<char>, room: nat)
    requires
        byte_length(s) <= room,
    ensures
        fills(s, room, s.len()),
{
    assert(s.take(s.len() as int) =~= s);
}

/// The text of an optional input.
pub open spec fn input_text(input: Option<Seq<char>>) -> Seq<char> {
    match input {
        Some(s) => s,
        None => Seq::empty(),
    }
}

impl JsTextEncoder {
    /// An encoder.
    pub fn new() -> (r: Self)
        ensures
            r == (JsTextEncoder {  }),
    {
        JsTextEncoder {  }
    }

    /// The name of its encoding, which is always UTF-8.
    pub fn encoding(&self) -> (r: String)
        ensures
            r@ == "utf-8"@,
    {
        "utf-8".to_owned()
    }

    /// The UTF-8 form of a text.
    pub fn encode(&self, input: Option<String>) -> (r: Vec<u8>)
        ensures
            r@ == encode_utf8(input_text(opt_text(input))),
    {
        match input {
            Some(s) => s.as_str().as_bytes_vec(),
            None => {
                assert(encode_utf8(Seq::<char>::empty()) =~= Seq::<u8>::empty());
                Vec::new()
            },
        }
    }

    /// Encodes as much of a text as fits into `dest_len` bytes, never a part
    /// of a scalar.
    pub fn encode_into(&self, source: Option<String>, dest_len: usize) -> (r: EncodeInto)
        ensures
            ({
                let s: Seq<char> = input_text(opt_text(source));
                exists|k: nat|
                    {
                        &&& #[trigger] fills(s, dest_len as nat, k)
                        &&& r.bytes@ == encode_utf8(s.take(k as int))
                        &&& r.written == r.bytes@.len()
                        &&& r.read == utf16_length(s.take(k as int))
                    }
            }),
    {
        let ghost given = input_text(opt_text(source));
        let s: String = match source {
            Some(t) => t,
            None => String::new(),
        };
        assert(s@ == given);
        let cs: Vec<char> = to_chars(s.as_str());
        let mut k: usize = 0;
        let mut written: usize = 0;
        let mut read: usize = 0;
        let n: usize = cs.len();
        assert(cs@.take(0) =~= Seq::<char>::empty());
        assert(byte_length(cs@.take(0)) == 0);
        while k < n && utf8_width(cs[k]) <= dest_len - written
            invariant
                n == cs@.len(),
                k <= n,
                written == byte_length(cs@.take(k as int)),
                written <= dest_len,
                read == utf16_length(cs@.take(k as int)),
                read <= written,
            decreases n - k,
        {
            let c: char = cs[k];
            let w: usize = utf8_width(c);
            proof {
                assert(cs@.take(k + 1) =~= cs@.take(k as int).push(c));
                assert(cs@.take(k + 1).drop_last() =~= cs@.take(k as int));
                encode_push(cs@.take(k as int), c);
            }
            written = written + w;
            read = read + if w == 4 {
                2
            } else {
                1
            };
            k = k + 1;
        }
        proof {
            if k < n {
                assert(cs@.take(k + 1) =~= cs@.take(k as int).push(cs@[k as int]));
                encode_push(cs@.take(k as int), cs@[k as int]);
            }
            assert(cs@.subrange(0, k as int) =~= cs@.take(k as int));
            assert(fills(cs@, dest_len as nat, k as nat));
        }
        let prefix: String = slice_text(&cs, 0, k);
        let bytes: Vec<u8> = prefix.as_str().as_bytes_vec();
        assert(bytes@ == encode_utf8(cs@.take(k as int)));
        assert(cs@ == given);
        EncodeInto { read, written, bytes }
    }
}

/// The name of an encoding that was found for a label; empty where none was.
pub fn encoding_for_label(found: Option<String>) -> (r: String)
    ensures
        r@ == input_text(opt_text(found)),
{
    match found {
        Some(s) => s,
        None => String::new(),
    }
}

/// The reply to a decoding of bytes under a label.
pub open spec fn text_decode_reply(decoded: Option<Seq<char>>) -> Seq<char> {
    match decoded {
        Some(s) => json_object_text(
            seq![json_member_text("ok"@, "true"@), json_member_text("v"@, json_quoted(s))],
        ),
        None => "{\"ok\":false}"@,
    }
}

/// The reply to a decoding of bytes under a label, given what they decoded to.
pub fn text_decode(decoded: Option<String>) -> (r: String)
    ensures
        r@ == text_decode_reply(opt_text(decoded)),
{
    match decoded {
        Some(s) => {
            let mut members: Vec<String> = Vec::new();
            members.push(json_member("ok", "true"));
            let v: String = json_string(s.as_str());
            members.push(json_member("v", v.as_str()));
            assert(crate::text::texts(members@) =~= seq![
                json_member_text("ok"@, "true"@),
                json_member_text("v"@, json_quoted(s@)),
            ]);
            json_object(&members)
        },
        None => "{\"ok\":false}".to_owned(),
    }
}

/// The query in the encoding of its document; as it is where that encoding is
/// not known.
pub fn url_encode_query(query: &str, encoded: Option<String>) -> (r: String)
    ensures
        match encoded {
            Some(s) => r@ == s@,
            None => r@ == query@,
        },
{
    match encoded {
        Some(s) => s,
        None => query.to_owned(),
    }
}

/// The bytes of a view are those of its buffer from its offset on, as many as
/// it is long; the buffer's own bytes go before those of a byte array. A view
/// that lies inside neither, and a value that is no buffer, are refused alike.
pub proof fn views_show_their_part(
    array_buffer: Option<Vec<u8>>,
    typed_array: Option<Vec<u8>>,
    offset: usize,
    len: usize,
    i: int,
)
    requires
        0 <= i < len,
    ensures
        ({
            let view: BufferSource = BufferSource::View { array_buffer, typed_array, offset, len };
            let in_buffer: bool = array_buffer is Some && offset + len <= array_buffer->0@.len();
            let in_array: bool = typed_array is Some && offset + len <= typed_array->0@.len();
            match source_bytes(view) {
                Ok(Some(bytes)) => {
                    &&& bytes.len() == len
                    &&& in_buffer || in_array
                    &&& in_buffer ==> bytes[i] == array_buffer->0@[offset + i]
                    &&& !in_buffer ==> bytes[i] == typed_array->0@[offset + i]
                },
                Ok(None) => false,
                Err(_) => !in_buffer && !in_array && source_bytes(view) == source_bytes(
                    BufferSource::Other,
                ),
            }
        }),
{
}

/// The bytes of a buffer are all of its bytes, none where it is detached;
/// without a value there is nothing to decode, and what is no buffer is
/// refused.
pub proof fn buffers_show_all_of_their_bytes(bytes: Vec<u8>)
    ensures
        source_bytes(BufferSource::Bytes(Some(bytes))) == Ok::<Option<Seq<u8>>, Seq<char>>(
            Some(bytes@),
        ),
        source_bytes(BufferSource::Bytes(None)) matches Ok(Some(none)) && none.len() == 0,
        source_bytes(BufferSource::Missing) == Ok::<Option<Seq<u8>>, Seq<char>>(None),
        source_bytes(BufferSource::Other) is Err,
{
}

/// Without a value a decoder gives the empty text, and it throws for what holds
/// no bytes. A fatal decoder hands the bytes on as they are, with its own
/// encoding and option.
pub proof fn decoders_answer_for_what_they_are_given(
    decoder: JsTextDecoder,
    source: BufferSource,
    bytes: Seq<u8>,
)
    ensures
        decoder.decoding(BufferSource::Missing) matches DecodeView::Text(t) && t.len() == 0,
        source_bytes(source) is Err ==> decoder.decoding(source) is TypeError,
        source_bytes(source) == Ok::<Option<Seq<u8>>, Seq<char>>(Some(bytes)) && decoder.fatal
            ==> (decoder.decoding(source) matches DecodeView::Fatal {
            encoding,
            ignore_bom,
            bytes: handed,
        } && encoding == decoder.encoding_name@ && ignore_bom == decoder.ignore_bom && handed
            == bytes),
        source_bytes(source) == Ok::<Option<Seq<u8>>, Seq<char>>(Some(bytes)) && !decoder.fatal
            ==> decoder.decoding(source) is Text,
{
}

/// A decoder that ignores the byte order mark of UTF-8 has it as the first
/// scalar of its text, with what the bytes behind it decode to; any other gives
/// what all of the bytes decode to.
pub proof fn marks_are_kept_where_asked(
    decoder: JsTextDecoder,
    source: BufferSource,
    bytes: Seq<u8>,
    t: Seq<char>,
)
    requires
        !decoder.fatal,
        source_bytes(source) == Ok::<Option<Seq<u8>>, Seq<char>>(Some(bytes)),
    ensures
        decoder.ignore_bom && label_encoding(decoder.encoding_name@) == Some("UTF-8"@)
            && bytes.len() >= 3 && bytes[0] == 0xEF && bytes[1] == 0xBB && bytes[2] == 0xBF
            && decoded_text(decoder.encoding_name@, bytes.skip(3)) == Some(t)
            ==> decoder.decoding(source) == DecodeView::Text(seq!['\u{FEFF}'] + t),
        (!decoder.ignore_bom || label_encoding(decoder.encoding_name@) != Some("UTF-8"@)
            || bytes.len() < 3 || bytes[0] != 0xEF || bytes[1] != 0xBB || bytes[2] != 0xBF)
            && decoded_text(decoder.encoding_name@, bytes) == Some(t) ==> decoder.decoding(source)
            == DecodeView::Text(t),
{
}

/// A label that stands for no encoding is named in the error, and `utf-8`
/// where none was given.
pub proof fn unknown_labels_are_named(label: Seq<char>)
    ensures
        exists|a: Seq<char>, b: Seq<char>| #[trigger] (a + label + b) == invalid_label(label),
        label_or_default(Some(label)) == label,
        label_or_default(None) == "utf-8"@,
{
    let a: Seq<char> = "Failed to construct 'TextDecoder': The encoding label provided ('"@;
    let b: Seq<char> = "') is invalid."@;
    assert(a + label + b == invalid_label(label));
}

/// The length in UTF-16 counts two for a scalar beyond the basic plane and one
/// for any other.
pub proof fn utf16_counts_surrogates_twice(s: Seq<char>, c: char)
    ensures
        utf16_length(Seq::<char>::empty()) == 0,
        (c as u32) < 0x10000 ==> utf16_length(s.push(c)) == utf16_length(s) + 1,
        (c as u32) >= 0x10000 ==> utf16_length(s.push(c)) == utf16_length(s) + 2,
{
    assert(s.push(c).drop_last() =~= s);
}

/// What is encoded into a room fits there, and one scalar more would not; all
/// of the text is encoded where it fits.
pub proof fn rooms_are_filled(s: Seq<char>, room: nat, k: nat)
    requires
        fills(s, room, k),
    ensures
        k <= s.len(),
        encode_utf8(s.take(k as int)).len() <= room,
        k < s.len() ==> encode_utf8(s.take(k as int + 1)).len() > room,
        encode_utf8(s).len() <= room ==> k == s.len(),
{
    if byte_length(s) <= room {
        enough_room_takes_all(s, room);
        filling_is_unique(s, room, k, s.len());
    }
}

/// The reply to a decoding tells that a text came out, and which.
pub proof fn decoded_texts_are_told(s: Seq<char>)
    ensures
        tells(text_decode_reply(Some(s)), "ok"@, "true"@),
        tells(text_decode_reply(Some(s)), "v"@, json_quoted(s)),
        text_decode_reply(None) == "{\"ok\":false}"@,
{
    let items: Seq<Seq<char>> = seq![
        json_member_text("ok"@, "true"@),
        json_member_text("v"@, json_quoted(s)),
    ];
    objects_tell_their_members(items, 0, "ok"@, "true"@);
    objects_tell_their_members(items, 1, "v"@, json_quoted(s));
}

} // verus!
