//! The parts of an `.xlsx` package that calamine does not read for us: number formats
//! (`xl/styles.xml`), the sheet-to-file relationships of the workbook, and the style
//! of each cell of a sheet.
use vstd::prelude::*;
use crate::table_import::xlsx::{
    spec_builtin_temporal_kind, spec_temporal_kind_from_format_code, xlsx_builtin_temporal_kind,
    xlsx_temporal_kind_from_format_code, XlsxTemporalKind,
};
use quick_xml::events::{BytesStart, Event};
use quick_xml::Reader;
use crate::text::{digit_value, is_ascii_alpha, is_digit, upper_char, to_upper_char, chars_eq_ic, chars_of, eq_ic, join, join_strings, parse_unsigned, parse_unsigned_chars, push_str, split_chars, split_on, string_of, views};

verus! {

/// Whether an XML event opens, is, or closes an element.
#[derive(Debug, Clone, Copy, PartialEq, Eq, Structural)]
pub enum XmlEventKind {
    Start,
    Empty,
    End,
}

/// An element event of an XML document: its kind, its qualified name, and its
/// attributes (qualified key, and the unescaped value when it could be decoded).
#[derive(Debug)]
pub struct XmlEvent {
    pub kind: XmlEventKind,
    pub name: String,
    pub attributes: Vec<(String, Option<String>)>,
}

pub ghost struct XmlEventModel {
    pub kind: XmlEventKind,
    pub name: Seq<char>,
    pub attrs: Seq<(Seq<char>, Option<Seq<char>>)>,
}

pub open spec fn ov(o: Option<String>) -> Option<Seq<char>> {
    match o {
        Some(s) => Some(s@),
        None => None,
    }
}

pub open spec fn attrs_view(a: Seq<(String, Option<String>)>) -> Seq<(Seq<char>, Option<Seq<char>>)> {
    a.map_values(|p: (String, Option<String>)| (p.0@, ov(p.1)))
}

impl XmlEvent {
    pub open spec fn model(self) -> XmlEventModel {
        XmlEventModel { kind: self.kind, name: self.name@, attrs: attrs_view(self.attributes@) }
    }
}

pub open spec fn events_view(v: Seq<XmlEvent>) -> Seq<XmlEventModel> {
    v.map_values(|e: XmlEvent| e.model())
}

/// What `quick_xml` reads from a document (text trimmed): its element events (start,
/// end and empty elements; text, comments, declarations and the like are not in it)
/// up to the end or to the first error, and that error's text.
pub uninterp spec fn xml_event_list(xml: Seq<char>) -> (Seq<XmlEventModel>, Option<Seq<char>>);

#[verifier::external_type_specification]
#[verifier::external_body]
pub struct ExBytesStart<'a>(BytesStart<'a>);

#[verifier::external_type_specification]
#[verifier::external_body]
#[verifier::reject_recursive_types(R)]
pub struct ExXmlReader<R>(Reader<R>);

/// One element of `quick_xml` as an [`XmlEvent`].
#[verifier::external_body]
fn element_event(kind: XmlEventKind, reader: &Reader<&[u8]>, element: &BytesStart<'_>) -> XmlEvent {
    let attributes = element
        .attributes()
        .flatten()
        .map(|a| (String::from_utf8_lossy(a.key.as_ref()).into_owned(), a.decode_and_unescape_value(reader.decoder()).ok().map(|v| v.into_owned())))
        .collect();
    XmlEvent { kind, name: String::from_utf8_lossy(element.name().as_ref()).into_owned(), attributes }
}

/// Reads the element events of an XML document with `quick_xml` (`Reader::from_str`,
/// text trimmed, `read_event` until the end or an error). Only start, end and empty
/// element events are kept; every other event is passed over. The contract claims
/// only that the events and the error are a function of the text.
#[verifier::external_body]
pub(crate) fn read_xml_events(xml: &str) -> (r: (Vec<XmlEvent>, Option<String>))
    ensures
        (events_view(r.0@), ov(r.1)) == xml_event_list(xml@),
{
    let mut reader = Reader::from_str(xml);
    reader.config_mut().trim_text(true);
    let mut events = Vec::new();
    loop {
        match reader.read_event() {
            Ok(Event::Start(e)) => events.push(element_event(XmlEventKind::Start, &reader, &e)),
            Ok(Event::Empty(e)) => events.push(element_event(XmlEventKind::Empty, &reader, &e)),
            Ok(Event::End(e)) => events.push(XmlEvent { kind: XmlEventKind::End, name: String::from_utf8_lossy(e.name().as_ref()).into_owned(), attributes: Vec::new() }),
            Ok(Event::Eof) => return (events, None),
            Err(error) => return (events, Some(error.to_string())),
            Ok(_) => {},
        }
    }
}

/// What `ssfmt::format_code_from_id` gives for a built-in number format.
pub uninterp spec fn ssfmt_format_code(id: u32) -> Option<Seq<char>>;

/// Calls `ssfmt::format_code_from_id`. The contract claims only that the code is a
/// function of the format number.
#[verifier::external_body]
fn builtin_format_code(id: u32) -> (r: Option<String>)
    ensures
        ov(r) == ssfmt_format_code(id),
{
    ssfmt::format_code_from_id(id).map(|code| code.to_string())
}

/// A name without its namespace prefix (the part after the last `:`).
pub open spec fn local_name(s: Seq<char>) -> Seq<char>
    decreases s.len(),
{
    if s.len() == 0 {
        s
    } else if s.last() == ':' {
        Seq::empty()
    } else {
        local_name(s.drop_last()).push(s.last())
    }
}

/// Whether a qualified name's local part is `expected`, ignoring ASCII case.
pub open spec fn name_is(name: Seq<char>, expected: Seq<char>) -> bool {
    eq_ic(local_name(name), expected)
}

fn local_name_exec(name: &String) -> (r: Vec<char>)
    ensures
        r@ == local_name(name@),
{
    let v = chars_of(name.as_str());
    let mut start: usize = v.len();
    assert(v@.subrange(0, v@.len() as int) =~= v@);
    assert(local_name(v@) + v@.subrange(v@.len() as int, v@.len() as int) =~= local_name(v@));
    while start > 0 && v[start - 1] != ':'
        invariant
            start <= v.len(),
            local_name(v@) == local_name(v@.subrange(0, start as int)) + v@.subrange(start as int, v@.len() as int),
        decreases start,
    {
        let ghost a = v@.subrange(0, start as int);
        assert(a.drop_last() =~= v@.subrange(0, start - 1));
        assert(v@.subrange(start - 1, v@.len() as int) =~= seq![a.last()] + v@.subrange(start as int, v@.len() as int));
        assert(local_name(a) == local_name(a.drop_last()).push(a.last()));
        assert(local_name(v@.subrange(0, start - 1)) + v@.subrange(start - 1, v@.len() as int) =~= local_name(
            a.drop_last(),
        ).push(a.last()) + v@.subrange(start as int, v@.len() as int));
        start = start - 1;
    }
    proof {
        if start > 0 {
            let a = v@.subrange(0, start as int);
            assert(a.last() == ':');
            assert(local_name(a) == Seq::<char>::empty());
        } else {
            assert(v@.subrange(0, 0) =~= Seq::<char>::empty());
        }
        assert(v@.subrange(start as int, v@.len() as int) =~= Seq::<char>::empty() + v@.subrange(
            start as int,
            v@.len() as int,
        ));
    }
    let mut out: Vec<char> = Vec::new();
    let mut k = start;
    while k < v.len()
        invariant
            start <= k <= v.len(),
            out@ == v@.subrange(start as int, k as int),
        decreases v.len() - k,
    {
        out.push(v[k]);
        assert(out@ =~= v@.subrange(start as int, k + 1));
        k = k + 1;
    }
    assert(out@ =~= v@.subrange(start as int, v@.len() as int));
    out
}

fn name_is_exec(name: &String, expected: &str) -> (r: bool)
    ensures
        r == name_is(name@, expected@),
{
    let l = local_name_exec(name);
    let e = chars_of(expected);
    chars_eq_ic(l.as_slice(), e.as_slice())
}

/// The value of the first decodable attribute whose local name is `key` (ignoring
/// ASCII case).
pub open spec fn attr_value(attrs: Seq<(Seq<char>, Option<Seq<char>>)>, key: Seq<char>) -> Option<Seq<char>>
    decreases attrs.len(),
{
    if attrs.len() == 0 {
        None
    } else if name_is(attrs[0].0, key) && attrs[0].1 is Some {
        attrs[0].1
    } else {
        attr_value(attrs.drop_first(), key)
    }
}

fn xml_attr_value(attrs: &Vec<(String, Option<String>)>, key: &str) -> (r: Option<String>)
    ensures
        ov(r) == attr_value(attrs_view(attrs@), key@),
{
    let ghost a = attrs_view(attrs@);
    let mut i: usize = 0;
    assert(a.subrange(0, a.len() as int) =~= a);
    while i < attrs.len()
        invariant
            i <= attrs.len(),
            a == attrs_view(attrs@),
            a.len() == attrs@.len(),
            attr_value(a, key@) == attr_value(a.subrange(i as int, a.len() as int), key@),
        decreases attrs.len() - i,
    {
        let ghost t = a.subrange(i as int, a.len() as int);
        assert(t[0] == a[i as int]);
        assert(t.drop_first() =~= a.subrange(i + 1, a.len() as int));
        if name_is_exec(&attrs[i].0, key) {
            match &attrs[i].1 {
                Some(v) => {
                    return Some(v.clone());
                },
                None => {},
            }
        }
        i = i + 1;
    }
    None
}

/// `str::parse::<u16>` of an optional attribute value.
pub open spec fn parse_u16(v: Option<Seq<char>>) -> Option<u16> {
    match v {
        Some(t) => match parse_unsigned(t, 65535) {
            Some(n) => Some(n as u16),
            None => None,
        },
        None => None,
    }
}

fn parse_u16_exec(v: &Option<String>) -> (r: Option<u16>)
    ensures
        r == parse_u16(ov(*v)),
{
    match v {
        Some(t) => {
            let c = chars_of(t.as_str());
            match parse_unsigned_chars(c.as_slice(), 65535) {
                Some(n) => Some(n as u16),
                None => None,
            }
        },
        None => None,
    }
}

/// The value last stored under `key`, as a map's `insert` and `get` give it.
pub open spec fn last_value<K>(pairs: Seq<(K, Seq<char>)>, key: K) -> Option<Seq<char>>
    decreases pairs.len(),
{
    if pairs.len() == 0 {
        None
    } else if pairs.last().0 == key {
        Some(pairs.last().1)
    } else {
        last_value(pairs.drop_last(), key)
    }
}

pub open spec fn pairs_view<K>(pairs: Seq<(K, String)>) -> Seq<(K, Seq<char>)> {
    pairs.map_values(|p: (K, String)| (p.0, p.1@))
}

fn last_u16_value(pairs: &Vec<(u16, String)>, key: u16) -> (r: Option<String>)
    ensures
        ov(r) == last_value(pairs_view(pairs@), key),
{
    let ghost pv = pairs_view(pairs@);
    let mut n = pairs.len();
    assert(pv.subrange(0, n as int) =~= pv);
    while n > 0
        invariant
            n <= pairs.len(),
            pv == pairs_view(pairs@),
            pv.len() == pairs@.len(),
            last_value(pv, key) == last_value(pv.subrange(0, n as int), key),
        decreases n,
    {
        let ghost t = pv.subrange(0, n as int);
        assert(t.last() == pv[n - 1]);
        assert(t.drop_last() =~= pv.subrange(0, n - 1));
        if pairs[n - 1].0 == key {
            return Some(pairs[n - 1].1.clone());
        }
        n = n - 1;
    }
    None
}

fn last_text_value(pairs: &Vec<(String, String)>, key: &String) -> (r: Option<String>)
    ensures
        ov(r) == last_value(text_pairs(pairs@), key@),
{
    let ghost pv = text_pairs(pairs@);
    let mut n = pairs.len();
    assert(pv.subrange(0, n as int) =~= pv);
    while n > 0
        invariant
            n <= pairs.len(),
            pv == text_pairs(pairs@),
            pv.len() == pairs@.len(),
            last_value(pv, key@) == last_value(pv.subrange(0, n as int), key@),
        decreases n,
    {
        let ghost t = pv.subrange(0, n as int);
        assert(t.last() == pv[n - 1]);
        assert(t.drop_last() =~= pv.subrange(0, n - 1));
        if pairs[n - 1].0 == *key {
            return Some(pairs[n - 1].1.clone());
        }
        n = n - 1;
    }
    None
}

pub open spec fn text_pairs(pairs: Seq<(String, String)>) -> Seq<(Seq<char>, Seq<char>)> {
    pairs.map_values(|p: (String, String)| (p.0@, p.1@))
}

/// How a cell style shows values: its temporal kind, and the number format code kept
/// for styles that are not temporal.
#[derive(Debug)]
pub struct XlsxCellStyle {
    pub temporal_kind: Option<XlsxTemporalKind>,
    pub number_format: Option<String>,
}

pub open spec fn style_view(s: XlsxCellStyle) -> (Option<XlsxTemporalKind>, Option<Seq<char>>) {
    (s.temporal_kind, ov(s.number_format))
}

/// The style an `xf` element with this number format defines, given the custom
/// formats read so far.
pub open spec fn spec_xf_style(
    num_fmt_id: Option<u16>,
    custom: Seq<(u16, Seq<char>)>,
) -> (Option<XlsxTemporalKind>, Option<Seq<char>>) {
    let code = match num_fmt_id {
        Some(id) => last_value(custom, id),
        None => None,
    };
    let temporal = match num_fmt_id {
        Some(id) => match (match code {
            Some(c) => spec_temporal_kind_from_format_code(c),
            None => None,
        }) {
            Some(k) => Some(k),
            None => spec_builtin_temporal_kind(id),
        },
        None => None,
    };
    let format = if temporal is None {
        match code {
            Some(c) => Some(c),
            None => match num_fmt_id {
                Some(id) => ssfmt_format_code(id as u32),
                None => None,
            },
        }
    } else {
        None
    };
    (temporal, format)
}

/// Reading `styles.xml`: the custom formats, the cell styles, and whether the reading
/// is inside `cellXfs`.
pub ghost struct StylesState {
    pub custom: Seq<(u16, Seq<char>)>,
    pub styles: Seq<(Option<XlsxTemporalKind>, Option<Seq<char>>)>,
    pub in_cell_xfs: bool,
}

pub open spec fn is_open(k: XmlEventKind) -> bool {
    k == XmlEventKind::Start || k == XmlEventKind::Empty
}

pub open spec fn styles_step(st: StylesState, e: XmlEventModel) -> StylesState {
    if is_open(e.kind) && name_is(e.name, "numFmt"@) {
        match (parse_u16(attr_value(e.attrs, "numFmtId"@)), attr_value(e.attrs, "formatCode"@)) {
            (Some(id), Some(code)) => StylesState { custom: st.custom.push((id, code)), ..st },
            _ => st,
        }
    } else if e.kind == XmlEventKind::Start && name_is(e.name, "cellXfs"@) {
        StylesState { in_cell_xfs: true, ..st }
    } else if e.kind == XmlEventKind::End && name_is(e.name, "cellXfs"@) {
        StylesState { in_cell_xfs: false, ..st }
    } else if is_open(e.kind) && st.in_cell_xfs && name_is(e.name, "xf"@) {
        StylesState {
            styles: st.styles.push(spec_xf_style(parse_u16(attr_value(e.attrs, "numFmtId"@)), st.custom)),
            ..st
        }
    } else {
        st
    }
}

pub open spec fn styles_fold(events: Seq<XmlEventModel>, n: int) -> StylesState
    decreases n,
{
    if n <= 0 || n > events.len() {
        StylesState { custom: Seq::empty(), styles: Seq::empty(), in_cell_xfs: false }
    } else {
        styles_step(styles_fold(events, n - 1), events[n - 1])
    }
}

/// The cell styles of `styles.xml`, in order: each `xf` of `cellXfs` with its temporal
/// kind (from its custom format code, else the built-in format) and, when not
/// temporal, its number format code. Reading stops at the first XML error.
pub open spec fn spec_parse_xlsx_styles(xml: Seq<char>) -> Seq<(Option<XlsxTemporalKind>, Option<Seq<char>>)> {
    let events = xml_event_list(xml).0;
    styles_fold(events, events.len() as int).styles
}

pub open spec fn styles_view(v: Seq<XlsxCellStyle>) -> Seq<(Option<XlsxTemporalKind>, Option<Seq<char>>)> {
    v.map_values(|s: XlsxCellStyle| style_view(s))
}

fn xf_style(num_fmt_id: Option<u16>, custom: &Vec<(u16, String)>) -> (r: XlsxCellStyle)
    ensures
        style_view(r) == spec_xf_style(num_fmt_id, pairs_view(custom@)),
{
    let code = match num_fmt_id {
        Some(id) => last_u16_value(custom, id),
        None => None,
    };
    let temporal = match num_fmt_id {
        Some(id) => {
            let from_code = match &code {
                Some(c) => xlsx_temporal_kind_from_format_code(c.as_str()),
                None => None,
            };
            match from_code {
                Some(k) => Some(k),
                None => xlsx_builtin_temporal_kind(id),
            }
        },
        None => None,
    };
    let format = if temporal.is_none() {
        match code {
            Some(c) => Some(c),
            None => match num_fmt_id {
                Some(id) => builtin_format_code(id as u32),
                None => None,
            },
        }
    } else {
        None
    };
    XlsxCellStyle { temporal_kind: temporal, number_format: format }
}

/// The cell styles of a workbook's `styles.xml` (see [`spec_parse_xlsx_styles`]).
pub fn parse_xlsx_styles(styles_xml: &str) -> (r: Vec<XlsxCellStyle>)
    ensures
        styles_view(r@) == spec_parse_xlsx_styles(styles_xml@),
{
    let (events, _) = read_xml_events(styles_xml);
    styles_from_events(&events)
}

/// The cell styles that the events of a `styles.xml` list, in order (see
/// [`styles_fold`]): each `xf` of `cellXfs` with the number format it names.
pub fn styles_from_events(events: &Vec<XmlEvent>) -> (r: Vec<XlsxCellStyle>)
    ensures
        styles_view(r@) == styles_fold(events_view(events@), events@.len() as int).styles,
{
    let ghost ev = events_view(events@);
    let mut custom: Vec<(u16, String)> = Vec::new();
    let mut styles: Vec<XlsxCellStyle> = Vec::new();
    let mut in_cell_xfs = false;
    let mut i: usize = 0;
    assert(pairs_view(custom@) =~= Seq::<(u16, Seq<char>)>::empty());
    assert(styles_view(styles@) =~= Seq::<(Option<XlsxTemporalKind>, Option<Seq<char>>)>::empty());
    while i < events.len()
        invariant
            i <= events.len(),
            ev == events_view(events@),
            ev.len() == events@.len(),
            styles_fold(ev, i as int) == (StylesState {
                custom: pairs_view(custom@),
                styles: styles_view(styles@),
                in_cell_xfs,
            }),
        decreases events.len() - i,
    {
        let e = &events[i];
        assert(ev[i as int] == e.model());
        let open = e.kind == XmlEventKind::Start || e.kind == XmlEventKind::Empty;
        if open && name_is_exec(&e.name, "numFmt") {
            let id = parse_u16_exec(&xml_attr_value(&e.attributes, "numFmtId"));
            let code = xml_attr_value(&e.attributes, "formatCode");
            match (id, code) {
                (Some(id), Some(code)) => {
                    let ghost before = custom@;
                    custom.push((id, code));
                    assert(pairs_view(custom@) =~= pairs_view(before).push((id, code@)));
                },
                _ => {},
            }
        } else if e.kind == XmlEventKind::Start && name_is_exec(&e.name, "cellXfs") {
            in_cell_xfs = true;
        } else if e.kind == XmlEventKind::End && name_is_exec(&e.name, "cellXfs") {
            in_cell_xfs = false;
        } else if open && in_cell_xfs && name_is_exec(&e.name, "xf") {
            let id = parse_u16_exec(&xml_attr_value(&e.attributes, "numFmtId"));
            let style = xf_style(id, &custom);
            let ghost before = styles@;
            let ghost sv = style_view(style);
            styles.push(style);
            assert(styles_view(styles@) =~= styles_view(before).push(sv));
        }
        i = i + 1;
    }
    styles
}


/// The sheets a workbook lists, in order: each `sheet` element's name and its
/// relationship ID.
pub open spec fn sheet_refs_fold(events: Seq<XmlEventModel>, n: int) -> Seq<(Seq<char>, Option<Seq<char>>)>
    decreases n,
{
    if n <= 0 || n > events.len() {
        Seq::empty()
    } else {
        let before = sheet_refs_fold(events, n - 1);
        let e = events[n - 1];
        if is_open(e.kind) && name_is(e.name, "sheet"@) {
            match attr_value(e.attrs, "name"@) {
                Some(name) => before.push((name, attr_value(e.attrs, "id"@))),
                None => before,
            }
        } else {
            before
        }
    }
}

pub open spec fn spec_sheet_refs(workbook_xml: Seq<char>) -> Seq<(Seq<char>, Option<Seq<char>>)> {
    let events = xml_event_list(workbook_xml).0;
    sheet_refs_fold(events, events.len() as int)
}

pub open spec fn refs_view(v: Seq<(String, Option<String>)>) -> Seq<(Seq<char>, Option<Seq<char>>)> {
    v.map_values(|p: (String, Option<String>)| (p.0@, ov(p.1)))
}

/// The sheets of `workbook.xml`: names and relationship IDs.
pub fn xlsx_workbook_sheet_refs(workbook_xml: &str) -> (r: Vec<(String, Option<String>)>)
    ensures
        refs_view(r@) == spec_sheet_refs(workbook_xml@),
{
    let (events, _) = read_xml_events(workbook_xml);
    let ghost ev = events_view(events@);
    let mut out: Vec<(String, Option<String>)> = Vec::new();
    let mut i: usize = 0;
    assert(refs_view(out@) =~= Seq::<(Seq<char>, Option<Seq<char>>)>::empty());
    while i < events.len()
        invariant
            i <= events.len(),
            ev == events_view(events@),
            ev.len() == events@.len(),
            refs_view(out@) == sheet_refs_fold(ev, i as int),
        decreases events.len() - i,
    {
        let e = &events[i];
        assert(ev[i as int] == e.model());
        if (e.kind == XmlEventKind::Start || e.kind == XmlEventKind::Empty) && name_is_exec(&e.name, "sheet") {
            match xml_attr_value(&e.attributes, "name") {
                Some(name) => {
                    let id = xml_attr_value(&e.attributes, "id");
                    let ghost before = out@;
                    let ghost item = (name@, ov(id));
                    out.push((name, id));
                    assert(refs_view(out@) =~= refs_view(before).push(item));
                },
                None => {},
            }
        }
        i = i + 1;
    }
    out
}

/// The relationships of a workbook, in order: each `Relationship`'s ID and target.
pub open spec fn rels_fold(events: Seq<XmlEventModel>, n: int) -> Seq<(Seq<char>, Seq<char>)>
    decreases n,
{
    if n <= 0 || n > events.len() {
        Seq::empty()
    } else {
        let before = rels_fold(events, n - 1);
        let e = events[n - 1];
        if is_open(e.kind) && name_is(e.name, "Relationship"@) {
            match (attr_value(e.attrs, "Id"@), attr_value(e.attrs, "Target"@)) {
                (Some(id), Some(target)) => before.push((id, target)),
                _ => before,
            }
        } else {
            before
        }
    }
}

pub open spec fn spec_relationship_targets(rels_xml: Seq<char>) -> Seq<(Seq<char>, Seq<char>)> {
    let events = xml_event_list(rels_xml).0;
    rels_fold(events, events.len() as int)
}

/// The relationships of `workbook.xml.rels` as (ID, target) pairs; a later pair with
/// the same ID takes the place of an earlier one when looked up.
pub fn xlsx_workbook_relationship_targets(rels_xml: &str) -> (r: Vec<(String, String)>)
    ensures
        text_pairs(r@) == spec_relationship_targets(rels_xml@),
{
    let (events, _) = read_xml_events(rels_xml);
    let ghost ev = events_view(events@);
    let mut out: Vec<(String, String)> = Vec::new();
    let mut i: usize = 0;
    assert(text_pairs(out@) =~= Seq::<(Seq<char>, Seq<char>)>::empty());
    while i < events.len()
        invariant
            i <= events.len(),
            ev == events_view(events@),
            ev.len() == events@.len(),
            text_pairs(out@) == rels_fold(ev, i as int),
        decreases events.len() - i,
    {
        let e = &events[i];
        assert(ev[i as int] == e.model());
        if (e.kind == XmlEventKind::Start || e.kind == XmlEventKind::Empty) && name_is_exec(&e.name, "Relationship") {
            match (xml_attr_value(&e.attributes, "Id"), xml_attr_value(&e.attributes, "Target")) {
                (Some(id), Some(target)) => {
                    let ghost before = out@;
                    let ghost item = (id@, target@);
                    out.push((id, target));
                    assert(text_pairs(out@) =~= text_pairs(before).push(item));
                },
                _ => {},
            }
        }
        i = i + 1;
    }
    out
}

/// `s` without its leading `c` characters.
pub open spec fn strip_leading(s: Seq<char>, c: char) -> Seq<char>
    decreases s.len(),
{
    if s.len() > 0 && s[0] == c {
        strip_leading(s.drop_first(), c)
    } else {
        s
    }
}

/// The path segments after walking `segs`: empty and `.` segments change nothing,
/// `..` goes up one level, any other segment goes down.
pub open spec fn walk(parts: Seq<Seq<char>>, segs: Seq<Seq<char>>) -> Seq<Seq<char>>
    decreases segs.len(),
{
    if segs.len() == 0 {
        parts
    } else {
        let before = walk(parts, segs.drop_last());
        let seg = segs.last();
        if seg.len() == 0 || seg == seq!['.'] {
            before
        } else if seg == seq!['.', '.'] {
            if before.len() > 0 {
                before.drop_last()
            } else {
                before
            }
        } else {
            before.push(seg)
        }
    }
}

/// A relationship target as a path in the package: an absolute target without its
/// leading slashes, a relative one resolved against `base_dir`.
pub open spec fn spec_relationship_target_path(base_dir: Seq<char>, target: Seq<char>) -> Seq<char> {
    if target.len() > 0 && target[0] == '/' {
        strip_leading(target, '/')
    } else {
        let base = split_on(base_dir, '/').filter(|p: Seq<char>| p.len() > 0);
        join(walk(base, split_on(target, '/')), "/"@)
    }
}

pub fn xlsx_relationship_target_path(base_dir: &str, target: &str) -> (r: String)
    ensures
        r@ == spec_relationship_target_path(base_dir@, target@),
{
    let t = chars_of(target);
    if t.len() > 0 && t[0] == '/' {
        let mut a: usize = 0;
        assert(t@.subrange(0, t@.len() as int) =~= t@);
        while a < t.len() && t[a] == '/'
            invariant
                a <= t.len(),
                strip_leading(t@, '/') == strip_leading(t@.subrange(a as int, t@.len() as int), '/'),
            decreases t.len() - a,
        {
            assert(t@.subrange(a as int, t@.len() as int).drop_first() =~= t@.subrange(a + 1, t@.len() as int));
            a = a + 1;
        }
        proof {
            let rest = t@.subrange(a as int, t@.len() as int);
            if rest.len() > 0 {
                assert(rest[0] == t@[a as int]);
            }
        }
        return string_of(&t.as_slice()[a..t.len()]);
    }
    let b = chars_of(base_dir);
    let base_parts = split_chars(&b, '/');
    let ghost bp = base_parts@.map_values(|p: Vec<char>| p@);
    let mut parts: Vec<String> = Vec::new();
    let mut i: usize = 0;
    while i < base_parts.len()
        invariant
            i <= base_parts.len(),
            bp == base_parts@.map_values(|p: Vec<char>| p@),
            views(parts@) == bp.subrange(0, i as int).filter(|p: Seq<char>| p.len() > 0),
        decreases base_parts.len() - i,
    {
        proof {
            let a = bp.subrange(0, i + 1);
            assert(a.drop_last() =~= bp.subrange(0, i as int));
            assert(a.last() == base_parts@[i as int]@);
            reveal(Seq::filter);
        }
        if base_parts[i].len() > 0 {
            let ghost before = parts@;
            let s = string_of(base_parts[i].as_slice());
            parts.push(s);
            assert(views(parts@) =~= views(before).push(s@));
        }
        i = i + 1;
    }
    assert(bp.subrange(0, bp.len() as int) =~= bp);
    let ghost base = views(parts@);
    let segs = split_chars(&t, '/');
    let ghost sv = segs@.map_values(|p: Vec<char>| p@);
    let mut j: usize = 0;
    while j < segs.len()
        invariant
            j <= segs.len(),
            sv == segs@.map_values(|p: Vec<char>| p@),
            views(parts@) == walk(base, sv.subrange(0, j as int)),
        decreases segs.len() - j,
    {
        let seg = &segs[j];
        proof {
            let a = sv.subrange(0, j + 1);
            assert(a.drop_last() =~= sv.subrange(0, j as int));
            assert(a.last() == seg@);
        }
        let is_dot = seg.len() == 1 && seg[0] == '.';
        let is_up = seg.len() == 2 && seg[0] == '.' && seg[1] == '.';
        assert(is_dot == (seg@ == seq!['.'])) by {
            if seg@.len() == 1 && seg@[0] == '.' {
                assert(seg@ =~= seq!['.']);
            }
        }
        assert(is_up == (seg@ == seq!['.', '.'])) by {
            if seg@.len() == 2 && seg@[0] == '.' && seg@[1] == '.' {
                assert(seg@ =~= seq!['.', '.']);
            }
        }
        if seg.len() == 0 || is_dot {
        } else if is_up {
            if parts.len() > 0 {
                let ghost before = parts@;
                parts.pop();
                assert(views(parts@) =~= views(before).drop_last());
            }
        } else {
            let ghost before = parts@;
            let s = string_of(seg.as_slice());
            parts.push(s);
            assert(views(parts@) =~= views(before).push(s@));
        }
        j = j + 1;
    }
    assert(sv.subrange(0, sv.len() as int) =~= sv);
    join_strings(&parts, "/")
}

/// Index of the first sheet named `name`, or the count.
pub open spec fn sheet_index(refs: Seq<(Seq<char>, Option<Seq<char>>)>, name: Seq<char>, i: int) -> int
    decreases refs.len() - i,
{
    if i < 0 || i >= refs.len() {
        refs.len() as int
    } else if refs[i].0 == name {
        i
    } else {
        sheet_index(refs, name, i + 1)
    }
}

/// The file of the sheet named `sheet_name`: the target of its relationship, else
/// `xl/worksheets/sheet<position>.xml`; none for a sheet the workbook does not list.
pub open spec fn spec_sheet_path(
    refs: Seq<(Seq<char>, Option<Seq<char>>)>,
    rels: Seq<(Seq<char>, Seq<char>)>,
    sheet_name: Seq<char>,
) -> Option<Seq<char>> {
    let i = sheet_index(refs, sheet_name, 0);
    if i >= refs.len() {
        None
    } else {
        match (match refs[i].1 {
            Some(id) => last_value(rels, id),
            None => None,
        }) {
            Some(target) => Some(spec_relationship_target_path("xl"@, target)),
            None => Some("xl/worksheets/sheet"@ + crate::text::dec((i + 1) as nat) + ".xml"@),
        }
    }
}

/// The file of the named sheet, from `workbook.xml` and its relationships.
pub fn xlsx_sheet_path_for_name(workbook_xml: &str, rels_xml: &str, sheet_name: &str) -> (r: Option<String>)
    ensures
        ov(r) == spec_sheet_path(spec_sheet_refs(workbook_xml@), spec_relationship_targets(rels_xml@), sheet_name@),
{
    let sheets = xlsx_workbook_sheet_refs(workbook_xml);
    let ghost rv = refs_view(sheets@);
    let mut i: usize = 0;
    while i < sheets.len() && !crate::text::str_eq(sheets[i].0.as_str(), sheet_name)
        invariant
            i <= sheets.len(),
            rv == refs_view(sheets@),
            rv.len() == sheets@.len(),
            sheet_index(rv, sheet_name@, 0) == sheet_index(rv, sheet_name@, i as int),
        decreases sheets.len() - i,
    {
        assert(rv[i as int].0 == sheets@[i as int].0@);
        i = i + 1;
    }
    if i >= sheets.len() {
        return None;
    }
    assert(rv[i as int] == (sheets@[i as int].0@, ov(sheets@[i as int].1)));
    let rels = xlsx_workbook_relationship_targets(rels_xml);
    let target = match &sheets[i].1 {
        Some(id) => last_text_value(&rels, id),
        None => None,
    };
    match target {
        Some(t) => Some(xlsx_relationship_target_path("xl", t.as_str())),
        None => {
            let mut p = String::new();
            push_str(&mut p, "xl/worksheets/sheet");
            crate::text::push_dec(&mut p, (i as u64) + 1);
            push_str(&mut p, ".xml");
            Some(p)
        },
    }
}


/// Reading a cell reference such as `$B$12` up to character `n`: the column and row
/// numbers so far and whether letters and digits were seen; `None` once a character
/// is out of place.
pub open spec fn ref_scan(s: Seq<char>, n: int) -> Option<(int, int, bool, bool)>
    decreases n,
{
    if n <= 0 || n > s.len() {
        Some((0, 0, false, false))
    } else {
        match ref_scan(s, n - 1) {
            None => None,
            Some((c, r, sc, sr)) => {
                let ch = s[n - 1];
                if ch == '$' {
                    Some((c, r, sc, sr))
                } else if is_ascii_alpha(ch) && !sr {
                    Some((c * 26 + ((upper_char(ch) as u32) - ('A' as u32) + 1), r, true, sr))
                } else if is_digit(ch) {
                    Some((c, r * 10 + digit_value(ch), sc, true))
                } else {
                    None
                }
            },
        }
    }
}

/// The (row, column) of a cell reference, both counted from 1: letters (any case) for
/// the column, then digits for the row, `$` anywhere ignored; `None` for anything else
/// or for numbers too large for `usize`.
pub open spec fn spec_cell_ref_position(s: Seq<char>) -> Option<(usize, usize)> {
    match ref_scan(s, s.len() as int) {
        Some((c, r, true, true)) => if c <= usize::MAX && r <= usize::MAX {
            Some((r as usize, c as usize))
        } else {
            None
        },
        _ => None,
    }
}

pub open spec fn scan_column(o: Option<(int, int, bool, bool)>) -> int {
    match o {
        Some((c, _, _, _)) => c,
        None => 0,
    }
}

pub open spec fn scan_row(o: Option<(int, int, bool, bool)>) -> int {
    match o {
        Some((_, r, _, _)) => r,
        None => 0,
    }
}

proof fn lemma_ref_scan_step(s: Seq<char>, n: int)
    requires
        0 < n <= s.len(),
        ref_scan(s, n) is Some,
        ref_scan(s, n - 1) is Some,
        scan_column(ref_scan(s, n - 1)) >= 0,
        scan_row(ref_scan(s, n - 1)) >= 0,
    ensures
        scan_column(ref_scan(s, n - 1)) <= scan_column(ref_scan(s, n)),
        scan_row(ref_scan(s, n - 1)) <= scan_row(ref_scan(s, n)),
{
    let c = scan_column(ref_scan(s, n - 1));
    let r = scan_row(ref_scan(s, n - 1));
    let ch = s[n - 1];
    assert(c * 26 >= c) by (nonlinear_arith)
        requires
            c >= 0,
    ;
    assert(r * 10 >= r) by (nonlinear_arith)
        requires
            r >= 0,
    ;
    if is_ascii_alpha(ch) {
        assert((upper_char(ch) as u32) >= ('A' as u32));
    }
    if is_digit(ch) {
        assert(digit_value(ch) >= 0);
    }
}

proof fn lemma_ref_scan_grows(s: Seq<char>, k: int, n: int)
    requires
        0 <= k <= n <= s.len(),
        ref_scan(s, n) is Some,
    ensures
        ref_scan(s, k) is Some,
        0 <= scan_column(ref_scan(s, k)) <= scan_column(ref_scan(s, n)),
        0 <= scan_row(ref_scan(s, k)) <= scan_row(ref_scan(s, n)),
    decreases n,
{
    if n > 0 {
        assert(ref_scan(s, n - 1) is Some);
        if k < n {
            lemma_ref_scan_grows(s, k, n - 1);
            lemma_ref_scan_grows(s, n - 1, n - 1);
            lemma_ref_scan_step(s, n);
        } else {
            lemma_ref_scan_grows(s, n - 1, n - 1);
            lemma_ref_scan_step(s, n);
        }
    }
}

/// The (row, column) of a cell reference (see [`spec_cell_ref_position`]).
pub fn xlsx_cell_ref_position(reference: &str) -> (r: Option<(usize, usize)>)
    ensures
        r == spec_cell_ref_position(reference@),
{
    let v = chars_of(reference);
    let mut column: usize = 0;
    let mut row: usize = 0;
    let mut saw_column = false;
    let mut saw_row = false;
    let mut i: usize = 0;
    while i < v.len()
        invariant
            i <= v.len(),
            v@ == reference@,
            ref_scan(v@, i as int) == Some((column as int, row as int, saw_column, saw_row)),
        decreases v.len() - i,
    {
        let ch = v[i];
        if ch == '$' {
        } else if (('a' <= ch && ch <= 'z') || ('A' <= ch && ch <= 'Z')) && !saw_row {
            saw_column = true;
            let d = (to_upper_char(ch) as u32 - 'A' as u32 + 1) as usize;
            let next = match column.checked_mul(26) {
                Some(x) => x.checked_add(d),
                None => None,
            };
            match next {
                Some(x) => {
                    column = x;
                },
                None => {
                    proof {
                        if ref_scan(v@, v@.len() as int) is Some {
                            lemma_ref_scan_grows(v@, i + 1, v@.len() as int);
                        }
                    }
                    return None;
                },
            }
        } else if '0' <= ch && ch <= '9' {
            saw_row = true;
            let d = (ch as u32 - '0' as u32) as usize;
            let next = match row.checked_mul(10) {
                Some(x) => x.checked_add(d),
                None => None,
            };
            match next {
                Some(x) => {
                    row = x;
                },
                None => {
                    proof {
                        if ref_scan(v@, v@.len() as int) is Some {
                            lemma_ref_scan_grows(v@, i + 1, v@.len() as int);
                        }
                    }
                    return None;
                },
            }
        } else {
            proof {
                if ref_scan(v@, v@.len() as int) is Some {
                    lemma_ref_scan_grows(v@, i + 1, v@.len() as int);
                }
            }
            return None;
        }
        i = i + 1;
    }
    if saw_column && saw_row {
        Some((row, column))
    } else {
        None
    }
}

impl XlsxCellStyle {
    /// A copy of the style.
    pub fn duplicate(&self) -> (r: Self)
        ensures
            style_view(r) == style_view(*self),
    {
        XlsxCellStyle {
            temporal_kind: self.temporal_kind,
            number_format: match &self.number_format {
                Some(f) => Some(f.clone()),
                None => None,
            },
        }
    }
}

pub open spec fn cell_styles_view(v: Seq<((usize, usize), XlsxCellStyle)>) -> Seq<
    ((usize, usize), (Option<XlsxTemporalKind>, Option<Seq<char>>)),
> {
    v.map_values(|p: ((usize, usize), XlsxCellStyle)| (p.0, style_view(p.1)))
}

/// The styled cells among the first `n` events of a sheet: each `c` element whose
/// style exists and is temporal, or which lies in one of the text columns.
pub open spec fn cell_styles_fold(
    events: Seq<XmlEventModel>,
    n: int,
    styles: Seq<(Option<XlsxTemporalKind>, Option<Seq<char>>)>,
    text_columns: Seq<usize>,
) -> Seq<((usize, usize), (Option<XlsxTemporalKind>, Option<Seq<char>>))>
    decreases n,
{
    if n <= 0 || n > events.len() {
        Seq::empty()
    } else {
        let before = cell_styles_fold(events, n - 1, styles, text_columns);
        let e = events[n - 1];
        if is_open(e.kind) && name_is(e.name, "c"@) {
            match (match attr_value(e.attrs, "s"@) {
                Some(t) => parse_unsigned(t, usize::MAX as int),
                None => None,
            }) {
                Some(id) => if id < styles.len() {
                    match (match attr_value(e.attrs, "r"@) {
                        Some(t) => spec_cell_ref_position(t),
                        None => None,
                    }) {
                        Some(pos) => if styles[id].0 is Some || text_columns.contains(pos.1) {
                            before.push((pos, styles[id]))
                        } else {
                            before
                        },
                        None => before,
                    }
                } else {
                    before
                },
                None => before,
            }
        } else {
            before
        }
    }
}

/// The style of each styled cell of a sheet, in document order (a later entry for the
/// same cell takes the place of an earlier one when looked up); the XML error when
/// the sheet cannot be read to its end.
pub open spec fn spec_sheet_cell_styles(
    sheet_xml: Seq<char>,
    styles: Seq<(Option<XlsxTemporalKind>, Option<Seq<char>>)>,
    text_columns: Seq<usize>,
) -> Result<Seq<((usize, usize), (Option<XlsxTemporalKind>, Option<Seq<char>>))>, Seq<char>> {
    let (events, error) = xml_event_list(sheet_xml);
    match error {
        Some(e) => Err(e),
        None => Ok(cell_styles_fold(events, events.len() as int, styles, text_columns)),
    }
}

fn contains_usize(v: &Vec<usize>, x: usize) -> (r: bool)
    ensures
        r == v@.contains(x),
{
    let mut i: usize = 0;
    while i < v.len()
        invariant
            i <= v.len(),
            forall|j: int| 0 <= j < i ==> v@[j] != x,
        decreases v.len() - i,
    {
        if v[i] == x {
            return true;
        }
        i = i + 1;
    }
    false
}

/// The styles of the cells of a sheet that matter for import (see
/// [`spec_sheet_cell_styles`]).
pub fn parse_xlsx_sheet_cell_styles(sheet_xml: &str, styles: &Vec<XlsxCellStyle>, text_columns: &Vec<usize>) -> (r:
    Result<Vec<((usize, usize), XlsxCellStyle)>, String>)
    ensures
        match r {
            Ok(v) => spec_sheet_cell_styles(sheet_xml@, styles_view(styles@), text_columns@) == Ok::<
                Seq<((usize, usize), (Option<XlsxTemporalKind>, Option<Seq<char>>))>,
                Seq<char>,
            >(cell_styles_view(v@)),
            Err(e) => spec_sheet_cell_styles(sheet_xml@, styles_view(styles@), text_columns@) == Err::<
                Seq<((usize, usize), (Option<XlsxTemporalKind>, Option<Seq<char>>))>,
                Seq<char>,
            >(e@),
        },
{
    let (events, error) = read_xml_events(sheet_xml);
    if let Some(e) = error {
        return Err(e);
    }
    Ok(cell_styles_from_events(&events, styles, text_columns))
}

/// The styled cells that the events of a sheet list, in order (see
/// [`cell_styles_fold`]).
pub fn cell_styles_from_events(events: &Vec<XmlEvent>, styles: &Vec<XlsxCellStyle>, text_columns: &Vec<usize>) -> (r:
    Vec<((usize, usize), XlsxCellStyle)>)
    ensures
        cell_styles_view(r@) == cell_styles_fold(
            events_view(events@),
            events@.len() as int,
            styles_view(styles@),
            text_columns@,
        ),
{
    let ghost ev = events_view(events@);
    let ghost sv = styles_view(styles@);
    let mut out: Vec<((usize, usize), XlsxCellStyle)> = Vec::new();
    let mut i: usize = 0;
    assert(cell_styles_view(out@) =~= Seq::<((usize, usize), (Option<XlsxTemporalKind>, Option<Seq<char>>))>::empty());
    while i < events.len()
        invariant
            i <= events.len(),
            ev == events_view(events@),
            ev.len() == events@.len(),
            sv == styles_view(styles@),
            sv.len() == styles@.len(),
            cell_styles_view(out@) == cell_styles_fold(ev, i as int, sv, text_columns@),
        decreases events.len() - i,
    {
        let e = &events[i];
        assert(ev[i as int] == e.model());
        if (e.kind == XmlEventKind::Start || e.kind == XmlEventKind::Empty) && name_is_exec(&e.name, "c") {
            let id = match xml_attr_value(&e.attributes, "s") {
                Some(t) => {
                    let c = chars_of(t.as_str());
                    match parse_unsigned_chars(c.as_slice(), usize::MAX as u64) {
                        Some(n) => Some(n as usize),
                        None => None,
                    }
                },
                None => None,
            };
            if let Some(id) = id {
                if id < styles.len() {
                    let pos = match xml_attr_value(&e.attributes, "r") {
                        Some(t) => xlsx_cell_ref_position(t.as_str()),
                        None => None,
                    };
                    if let Some(pos) = pos {
                        assert(sv[id as int] == style_view(styles@[id as int]));
                        if styles[id].temporal_kind.is_some() || contains_usize(text_columns, pos.1) {
                            let ghost before = out@;
                            let st = styles[id].duplicate();
                            let ghost item = (pos, style_view(st));
                            out.push((pos, st));
                            assert(cell_styles_view(out@) =~= cell_styles_view(before).push(item));
                        }
                    }
                }
            }
        }
        i = i + 1;
    }
    out
}

} // verus!
