//! Detecting and decoding the text encoding of delimited files.
use vstd::prelude::*;
use crate::table_import::options::TableImportTextEncoding;

verus! {

/// The encoding a byte-order mark at the front names, with the mark's length.
pub open spec fn spec_bom_text_encoding(bytes: Seq<u8>) -> Option<(TableImportTextEncoding, usize)> {
    if bytes.len() >= 3 && bytes[0] == 0xEF && bytes[1] == 0xBB && bytes[2] == 0xBF {
        Some((TableImportTextEncoding::Utf8, 3usize))
    } else if bytes.len() >= 2 && bytes[0] == 0xFF && bytes[1] == 0xFE {
        Some((TableImportTextEncoding::Utf16Le, 2usize))
    } else if bytes.len() >= 2 && bytes[0] == 0xFE && bytes[1] == 0xFF {
        Some((TableImportTextEncoding::Utf16Be, 2usize))
    } else {
        None
    }
}

pub fn bom_text_encoding(bytes: &[u8]) -> (r: Option<(TableImportTextEncoding, usize)>)
    ensures
        r == spec_bom_text_encoding(bytes@),
{
    if bytes.len() >= 3 && bytes[0] == 0xEF && bytes[1] == 0xBB && bytes[2] == 0xBF {
        Some((TableImportTextEncoding::Utf8, 3))
    } else if bytes.len() >= 2 && bytes[0] == 0xFF && bytes[1] == 0xFE {
        Some((TableImportTextEncoding::Utf16Le, 2))
    } else if bytes.len() >= 2 && bytes[0] == 0xFE && bytes[1] == 0xFF {
        Some((TableImportTextEncoding::Utf16Be, 2))
    } else {
        None
    }
}

/// The length of the byte-order mark at the front when it names `encoding`, else 0.
pub open spec fn spec_matching_bom_len(bytes: Seq<u8>, encoding: TableImportTextEncoding) -> usize {
    match spec_bom_text_encoding(bytes) {
        Some((e, len)) => if e == encoding { len } else { 0 },
        None => 0,
    }
}

pub fn matching_bom_len(bytes: &[u8], encoding: TableImportTextEncoding) -> (r: usize)
    ensures
        r == spec_matching_bom_len(bytes@, encoding),
        r <= bytes@.len(),
{
    match bom_text_encoding(bytes) {
        Some((e, len)) => if e == encoding { len } else { 0 },
        None => 0,
    }
}

/// What strict decoding of `bytes` in `encoding` gives, without byte-order-mark
/// handling: the text, or `None` at a malformed sequence.
pub uninterp spec fn strict_decoding(bytes: Seq<u8>, encoding: TableImportTextEncoding) -> Option<Seq<char>>;

/// Calls `encoding_rs::Encoding::decode_without_bom_handling_and_without_replacement`
/// for UTF-8, GBK (decoded as GB18030), UTF-16 LE or UTF-16 BE. The contract claims
/// only that the outcome is a function of the bytes and the encoding.
#[verifier::external_body]
pub(crate) fn decode_strict(bytes: &[u8], encoding: TableImportTextEncoding) -> (r: Option<String>)
    requires
        encoding != TableImportTextEncoding::Auto,
    ensures
        strict_decoding(bytes@, encoding) == match r {
            Some(s) => Some(s@),
            None => None::<Seq<char>>,
        },
{
    let codec = match encoding {
        TableImportTextEncoding::Gbk => encoding_rs::GBK,
        TableImportTextEncoding::Utf16Le => encoding_rs::UTF_16LE,
        TableImportTextEncoding::Utf16Be => encoding_rs::UTF_16BE,
        _ => encoding_rs::UTF_8,
    };
    codec.decode_without_bom_handling_and_without_replacement(bytes).map(|text| text.into_owned())
}

/// What a fresh decoder for `encoding` gives when fed `bytes` as the start of a longer
/// input: the text decoded so far (a sequence left unfinished at the end waits for
/// more input and is not in it), or `None` at a malformed sequence.
pub uninterp spec fn partial_decoding(bytes: Seq<u8>, encoding: TableImportTextEncoding) -> Option<Seq<char>>;

/// Feeds `bytes` to `Encoding::new_decoder_without_bom_handling` through
/// `Decoder::decode_to_string_without_replacement` with `last` false, into a string of
/// the capacity `max_utf8_buffer_length_without_replacement` asks for, so that the
/// output is never full. The contract claims only that the outcome is a function of
/// the bytes and the encoding.
#[verifier::external_body]
pub(crate) fn decode_partial(bytes: &[u8], encoding: TableImportTextEncoding) -> (r: Option<String>)
    requires
        encoding != TableImportTextEncoding::Auto,
        bytes@.len() <= usize::MAX / 4,
    ensures
        partial_decoding(bytes@, encoding) == match r {
            Some(s) => Some(s@),
            None => None::<Seq<char>>,
        },
{
    let codec = match encoding {
        TableImportTextEncoding::Gbk => encoding_rs::GBK,
        TableImportTextEncoding::Utf16Le => encoding_rs::UTF_16LE,
        TableImportTextEncoding::Utf16Be => encoding_rs::UTF_16BE,
        _ => encoding_rs::UTF_8,
    };
    let mut decoder = codec.new_decoder_without_bom_handling();
    let mut text = String::with_capacity(decoder.max_utf8_buffer_length_without_replacement(bytes.len()).unwrap_or(0));
    match decoder.decode_to_string_without_replacement(bytes, &mut text, false).0 {
        encoding_rs::DecoderResult::InputEmpty => Some(text),
        encoding_rs::DecoderResult::OutputFull => Some(text),
        encoding_rs::DecoderResult::Malformed(_, _) => None,
    }
}

/// The encoding detected for bytes: the one a byte-order mark names, else UTF-8 when
/// the bytes decode as UTF-8, else GBK when they decode as GBK; `None` otherwise.
pub open spec fn spec_auto_detect(bytes: Seq<u8>) -> Option<(TableImportTextEncoding, usize)> {
    match spec_bom_text_encoding(bytes) {
        Some(found) => Some(found),
        None => if strict_decoding(bytes, TableImportTextEncoding::Utf8) is Some {
            Some((TableImportTextEncoding::Utf8, 0usize))
        } else if strict_decoding(bytes, TableImportTextEncoding::Gbk) is Some {
            Some((TableImportTextEncoding::Gbk, 0usize))
        } else {
            None
        },
    }
}

pub fn auto_detect_text_encoding_from_bytes(bytes: &[u8]) -> (r: Result<(TableImportTextEncoding, usize), String>)
    ensures
        match r {
            Ok(found) => spec_auto_detect(bytes@) == Some(found),
            Err(e) => spec_auto_detect(bytes@) is None
                && e@ == "Could not detect text encoding; select UTF-8, GBK / GB18030, or UTF-16 manually"@,
        },
{
    if let Some(detected) = bom_text_encoding(bytes) {
        return Ok(detected);
    }
    if decode_strict(bytes, TableImportTextEncoding::Utf8).is_some() {
        return Ok((TableImportTextEncoding::Utf8, 0));
    }
    if decode_strict(bytes, TableImportTextEncoding::Gbk).is_some() {
        return Ok((TableImportTextEncoding::Gbk, 0));
    }
    Err("Could not detect text encoding; select UTF-8, GBK / GB18030, or UTF-16 manually".to_owned())
}

/// The encoding to read with: the one asked for (skipping its own byte-order mark),
/// or the detected one when automatic detection is asked for or none is given.
pub open spec fn spec_resolve_encoding(
    bytes: Seq<u8>,
    requested: Option<TableImportTextEncoding>,
) -> Option<(TableImportTextEncoding, usize)> {
    let req = requested.unwrap_or(TableImportTextEncoding::Auto);
    if req == TableImportTextEncoding::Auto {
        spec_auto_detect(bytes)
    } else {
        Some((req, spec_matching_bom_len(bytes, req)))
    }
}

pub fn resolve_text_encoding_from_bytes(
    bytes: &[u8],
    requested: Option<TableImportTextEncoding>,
) -> (r: Result<(TableImportTextEncoding, usize), String>)
    ensures
        match r {
            Ok(found) => spec_resolve_encoding(bytes@, requested) == Some(found) && found.0
                != TableImportTextEncoding::Auto && found.1 <= bytes@.len(),
            Err(e) => spec_resolve_encoding(bytes@, requested) is None
                && e@ == "Could not detect text encoding; select UTF-8, GBK / GB18030, or UTF-16 manually"@,
        },
{
    let requested = match requested {
        Some(e) => e,
        None => TableImportTextEncoding::Auto,
    };
    if requested == TableImportTextEncoding::Auto {
        auto_detect_text_encoding_from_bytes(bytes)
    } else {
        Ok((requested, matching_bom_len(bytes, requested)))
    }
}

} // verus!
