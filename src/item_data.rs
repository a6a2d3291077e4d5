//! The per-item stream: geometry records followed by optional attributes.
//!
//! The stream has no terminator: it ends at the end of the input, or at a
//! flag byte that the attribute section does not know.
use vstd::prelude::*;

use crate::byte_string::ByteString;
use crate::enums::ByteOrder;
use crate::error::{Error, Warning};
use crate::header::{Header, MIN_SIZE_OF_POINT};
use crate::io::{
    get_bytes, get_i16, get_u32, i16_value, push_all, push_zeros, u32_bytes, u32_value, write_u32,
    ByteReader,
};
use crate::point_op::{ops_bytes, PointOp, POINT_OP_MOVE_ORIGIN, POINT_OP_NEW_POINT};

verus! {

/// Flag bit that opens the attribute section; its low six bits are the
/// length of the name.
pub const ATTRIBUTE_FLAG: u8 = 0x40;

/// Flag bits of a frequency record; its low six bits are the label length.
pub const FREQUENCY_FLAG: u8 = 0xC0;

/// Flag byte of an optional-data record.
pub const OPTIONAL_DATA_FLAG: u8 = 0xA0;

/// The decoded stream of one item. Text fields are raw bytes.
#[derive(Debug, Clone, PartialEq, Eq)]
pub struct ItemData {
    /// Geometry records, in stream order.
    pub point_ops: Vec<PointOp>,
    /// Airspace name.
    pub name: Option<ByteString>,
    /// Primary frequency in Hz.
    pub frequency: Option<u32>,
    /// Label of the primary frequency.
    pub frequency_name: Option<ByteString>,
    /// ICAO code.
    pub icao_code: Option<ByteString>,
    /// Secondary frequency in Hz (24 bits).
    pub secondary_frequency: Option<u32>,
    /// Class exception rules.
    pub exception_rules: Option<ByteString>,
    /// NOTAM remarks.
    pub notam_remarks: Option<ByteString>,
    /// NOTAM identifier.
    pub notam_id: Option<ByteString>,
    /// NOTAM insert time (encoded minutes).
    pub notam_insert_time: Option<u32>,
}

/// An item's stream as the contracts see it.
pub struct ItemDataView {
    pub point_ops: Seq<PointOp>,
    pub name: Option<Seq<u8>>,
    pub frequency: Option<u32>,
    pub frequency_name: Option<Seq<u8>>,
    pub icao_code: Option<Seq<u8>>,
    pub secondary_frequency: Option<u32>,
    pub exception_rules: Option<Seq<u8>>,
    pub notam_remarks: Option<Seq<u8>>,
    pub notam_id: Option<Seq<u8>>,
    pub notam_insert_time: Option<u32>,
}

/// The view of an optional text field.
pub open spec fn text_view(t: Option<ByteString>) -> Option<Seq<u8>> {
    match t {
        Some(b) => Some(b@),
        None => None,
    }
}

impl View for ItemData {
    type V = ItemDataView;

    open spec fn view(&self) -> ItemDataView {
        ItemDataView {
            point_ops: self.point_ops@,
            name: text_view(self.name),
            frequency: self.frequency,
            frequency_name: text_view(self.frequency_name),
            icao_code: text_view(self.icao_code),
            secondary_frequency: self.secondary_frequency,
            exception_rules: text_view(self.exception_rules),
            notam_remarks: text_view(self.notam_remarks),
            notam_id: text_view(self.notam_id),
            notam_insert_time: self.notam_insert_time,
        }
    }
}

/// The stream with nothing decoded yet.
pub open spec fn empty_view() -> ItemDataView {
    ItemDataView {
        point_ops: Seq::empty(),
        name: None,
        frequency: None,
        frequency_name: None,
        icao_code: None,
        secondary_frequency: None,
        exception_rules: None,
        notam_remarks: None,
        notam_id: None,
        notam_insert_time: None,
    }
}

/// Where the stream parser stands.
pub struct ParseState {
    /// Offset of the next flag byte.
    pub pos: int,
    /// Whether the attribute section has begun.
    pub in_attrs: bool,
    /// What was decoded so far.
    pub data: ItemDataView,
    /// Warnings raised so far.
    pub warnings: Seq<Warning>,
}

/// One move of the stream parser.
pub enum Step {
    /// Go on from this state.
    Next(ParseState),
    /// The stream ends here, successfully.
    Stop(ParseState),
    /// The stream is malformed.
    Fail(Error),
}

/// The state `st` ended by a truncated record at its position.
pub open spec fn truncated(st: ParseState) -> Step {
    Step::Stop(ParseState { warnings: st.warnings.push(Warning::Truncated { offset: st.pos as usize }), ..st })
}

/// Length of the name, from the flag that opens the attribute section.
pub open spec fn low6(flag: u8) -> u8 {
    flag & 0x3f
}

/// One move in the geometry section, at flag offset `st.pos`.
pub open spec fn step_ops(s: Seq<u8>, st: ParseState, order: ByteOrder, sop: i32) -> Step {
    let p = st.pos;
    let flag = s[p];
    if flag == POINT_OP_MOVE_ORIGIN || flag == POINT_OP_NEW_POINT {
        if p + 5 > s.len() {
            truncated(st)
        } else {
            let x = i16_value(s.subrange(p + 1, p + 3), order);
            let y = i16_value(s.subrange(p + 3, p + 5), order);
            let op = if flag == POINT_OP_MOVE_ORIGIN {
                PointOp::MoveOrigin { x, y }
            } else {
                PointOp::NewPoint { x, y }
            };
            Step::Next(
                ParseState {
                    pos: p + 5,
                    data: ItemDataView { point_ops: st.data.point_ops.push(op), ..st.data },
                    ..st
                },
            )
        }
    } else if flag & ATTRIBUTE_FLAG != 0 {
        let n = low6(flag) as int;
        let start = p + sop;
        if sop < 1 || start + n > s.len() {
            truncated(st)
        } else {
            Step::Next(
                ParseState {
                    pos: start + n,
                    in_attrs: true,
                    data: ItemDataView {
                        name: if n > 0 {
                            Some(s.subrange(start, start + n))
                        } else {
                            st.data.name
                        },
                        ..st.data
                    },
                    ..st
                },
            )
        }
    } else {
        Step::Fail(Error::UnexpectedPointFlag(flag))
    }
}

/// One optional-data record at `st.pos`: type id, three payload bytes,
/// then a payload whose shape the id decides. An unknown id is skipped with
/// a warning.
pub open spec fn step_record(s: Seq<u8>, st: ParseState) -> Step {
    let p = st.pos;
    if p + 5 > s.len() {
        truncated(st)
    } else {
        let id = s[p + 1];
        let b1 = s[p + 2];
        let b2 = s[p + 3];
        let b3 = s[p + 4];
        let short_len = b3 as int;
        let long_len = b2 as int * 256 + b3 as int;
        let d = st.data;
        if id == 0 || id == 4 {
            if p + 5 + short_len > s.len() {
                truncated(st)
            } else {
                let t = Some(s.subrange(p + 5, p + 5 + short_len));
                Step::Next(
                    ParseState {
                        pos: p + 5 + short_len,
                        data: if id == 0 {
                            ItemDataView { icao_code: t, ..d }
                        } else {
                            ItemDataView { notam_id: t, ..d }
                        },
                        ..st
                    },
                )
            }
        } else if id == 1 {
            Step::Next(
                ParseState {
                    pos: p + 5,
                    data: ItemDataView {
                        secondary_frequency: Some(
                            ((b1 as u32) << 16u32) | ((b2 as u32) << 8u32) | (b3 as u32),
                        ),
                        ..d
                    },
                    ..st
                },
            )
        } else if id == 2 || id == 3 {
            if p + 5 + long_len > s.len() {
                truncated(st)
            } else {
                let t = Some(s.subrange(p + 5, p + 5 + long_len));
                Step::Next(
                    ParseState {
                        pos: p + 5 + long_len,
                        data: if id == 2 {
                            ItemDataView { exception_rules: t, ..d }
                        } else {
                            ItemDataView { notam_remarks: t, ..d }
                        },
                        ..st
                    },
                )
            }
        } else if id == 5 {
            if p + 6 > s.len() {
                truncated(st)
            } else {
                Step::Next(
                    ParseState {
                        pos: p + 6,
                        data: ItemDataView {
                            notam_insert_time: Some(
                                u32_value(s.subrange(p + 2, p + 6), ByteOrder::BE),
                            ),
                            ..d
                        },
                        ..st
                    },
                )
            }
        } else {
            Step::Next(
                ParseState {
                    pos: p + 5,
                    warnings: st.warnings.push(Warning::UnknownDataId(id)),
                    ..st
                },
            )
        }
    }
}

/// One move in the attribute section, at flag offset `st.pos`.
pub open spec fn step_attrs(s: Seq<u8>, st: ParseState, order: ByteOrder) -> Step {
    let p = st.pos;
    let flag = s[p];
    if flag & FREQUENCY_FLAG == FREQUENCY_FLAG {
        let n = low6(flag) as int;
        if p + 5 + n > s.len() {
            truncated(st)
        } else {
            Step::Next(
                ParseState {
                    pos: p + 5 + n,
                    data: ItemDataView {
                        frequency: Some(u32_value(s.subrange(p + 1, p + 5), order)),
                        frequency_name: if n > 0 {
                            Some(s.subrange(p + 5, p + 5 + n))
                        } else {
                            st.data.frequency_name
                        },
                        ..st.data
                    },
                    ..st
                },
            )
        }
    } else if flag == OPTIONAL_DATA_FLAG {
        step_record(s, st)
    } else {
        Step::Stop(st)
    }
}

/// One move of the stream parser; the end of the input ends the stream.
pub open spec fn step(s: Seq<u8>, st: ParseState, order: ByteOrder, sop: i32) -> Step {
    if st.pos >= s.len() {
        Step::Stop(st)
    } else if st.in_attrs {
        step_attrs(s, st, order)
    } else {
        step_ops(s, st, order, sop)
    }
}

/// The parser run to its end from state `st`.
pub open spec fn run(s: Seq<u8>, st: ParseState, order: ByteOrder, sop: i32) -> Result<
    ParseState,
    Error,
>
    decreases s.len() - st.pos,
{
    if st.pos >= s.len() {
        Ok(st)
    } else {
        match step(s, st, order, sop) {
            Step::Next(next) => if next.pos > st.pos {
                run(s, next, order, sop)
            } else {
                Ok(next)
            },
            Step::Stop(end) => Ok(end),
            Step::Fail(e) => Err(e),
        }
    }
}

/// What decoding the stream that starts at offset `p` of `s` gives.
pub open spec fn parse_item_data(s: Seq<u8>, p: int, order: ByteOrder, sop: i32) -> Result<
    ParseState,
    Error,
> {
    run(s, ParseState { pos: p, in_attrs: false, data: empty_view(), warnings: Seq::empty() }, order, sop)
}

/// A stream that ends exactly at the end of the input, at a flag-read
/// boundary, ends successfully with what was decoded before it.
pub proof fn lemma_end_of_input_ends_stream(
    s: Seq<u8>,
    st: ParseState,
    order: ByteOrder,
    sop: i32,
)
    requires
        st.pos >= s.len(),
    ensures
        run(s, st, order, sop) == Ok::<ParseState, Error>(st),
{
}

} // verus!

verus! {

impl ItemData {
    /// A stream with nothing in it.
    pub fn empty() -> (r: ItemData)
        ensures
            r@ == empty_view(),
    {
        ItemData {
            point_ops: Vec::new(),
            name: None,
            frequency: None,
            frequency_name: None,
            icao_code: None,
            secondary_frequency: None,
            exception_rules: None,
            notam_remarks: None,
            notam_id: None,
            notam_insert_time: None,
        }
    }

    /// Decodes one item's stream at the reader's position: geometry records,
    /// then the name, a frequency and optional-data records.
    ///
    /// The end of the input ends the stream successfully. A record cut short
    /// by the end of the input ends it too, with a
    /// [`Warning::Truncated`]; an optional-data record of unknown type is
    /// skipped with a [`Warning::UnknownDataId`]. Warnings are appended to
    /// `warnings`. A geometry flag byte with no meaning is an error.
    pub fn read(reader: &mut ByteReader, header: &Header, warnings: &mut Vec<Warning>) -> (r:
        Result<ItemData, Error>)
        ensures
            final(reader).bytes() == old(reader).bytes(),
            ({
                let res = parse_item_data(
                    old(reader).bytes(),
                    old(reader).pos() as int,
                    ByteOrder::from_selector(header.pc_byte_order),
                    header.size_of_point,
                );
                match r {
                    Ok(d) => res is Ok && res->Ok_0.data == d@ && final(warnings)@ == old(
                        warnings,
                    )@ + res->Ok_0.warnings && final(reader).pos() == res->Ok_0.pos,
                    Err(e) => res == Err::<ParseState, Error>(e),
                }
            }),
    {
        let order = header.byte_order();
        let sop = header.size_of_point;
        let s = reader.buffer();
        let len = s.len();
        let mut pos = reader.position();
        let mut in_attrs = false;
        let mut data = ItemData::empty();
        let ghost base = warnings@;
        let ghost mut found: Seq<Warning> = Seq::empty();
        assert(warnings@ =~= base + found);
        loop
            invariant
                s@ == reader.bytes(),
                reader.bytes() == old(reader).bytes(),
                order == ByteOrder::from_selector(header.pc_byte_order),
                sop == header.size_of_point,
                len == s@.len(),
                warnings@ == base + found,
                base == old(warnings)@,
                run(
                    s@,
                    ParseState { pos: pos as int, in_attrs, data: data@, warnings: found },
                    order,
                    sop,
                ) == parse_item_data(s@, old(reader).pos() as int, order, sop),
            decreases len - pos,
        {
            if pos >= len {
                reader.seek(pos);
                return Ok(data);
            }
            let flag = s[pos];
            let ghost st = ParseState { pos: pos as int, in_attrs, data: data@, warnings: found };
            if !in_attrs {
                if flag == POINT_OP_MOVE_ORIGIN || flag == POINT_OP_NEW_POINT {
                    if len - pos < 5 {
                        warnings.push(Warning::Truncated { offset: pos });
                        proof {
                            found = found.push(Warning::Truncated { offset: pos });
                            assert(warnings@ =~= base + found);
                        }
                        reader.seek(pos);
                        return Ok(data);
                    }
                    let x = get_i16(s, pos + 1, order);
                    let y = get_i16(s, pos + 3, order);
                    let op = if flag == POINT_OP_MOVE_ORIGIN {
                        PointOp::MoveOrigin { x, y }
                    } else {
                        PointOp::NewPoint { x, y }
                    };
                    data.point_ops.push(op);
                    pos = pos + 5;
                } else if flag & ATTRIBUTE_FLAG != 0 {
                    let n = (flag & 0x3f) as usize;
                    if sop < 1 || sop as usize > len - pos || n > len - pos - sop as usize {
                        warnings.push(Warning::Truncated { offset: pos });
                        proof {
                            found = found.push(Warning::Truncated { offset: pos });
                            assert(warnings@ =~= base + found);
                        }
                        reader.seek(pos);
                        return Ok(data);
                    }
                    let start = pos + sop as usize;
                    if n > 0 {
                        data.name = Some(ByteString::new(get_bytes(s, start, start + n)));
                    }
                    pos = start + n;
                    in_attrs = true;
                } else {
                    return Err(Error::UnexpectedPointFlag(flag));
                }
            } else if flag & FREQUENCY_FLAG == FREQUENCY_FLAG {
                let n = (flag & 0x3f) as usize;
                if len - pos < 5 || n > len - pos - 5 {
                    warnings.push(Warning::Truncated { offset: pos });
                    proof {
                        found = found.push(Warning::Truncated { offset: pos });
                        assert(warnings@ =~= base + found);
                    }
                    reader.seek(pos);
                    return Ok(data);
                }
                data.frequency = Some(get_u32(s, pos + 1, order));
                if n > 0 {
                    data.frequency_name = Some(ByteString::new(get_bytes(s, pos + 5, pos + 5 + n)));
                }
                pos = pos + 5 + n;
            } else if flag == OPTIONAL_DATA_FLAG {
                match read_record(s, pos, &mut data, warnings, Ghost(base), Ghost(found)) {
                    Some(next) => {
                        proof {
                            let nf = warnings@.subrange(base.len() as int, warnings@.len() as int);
                            match step_record(s@, st) {
                                Step::Next(n) => {
                                    assert(nf =~= n.warnings);
                                },
                                _ => {},
                            }
                            found = nf;
                        }
                        pos = next;
                    },
                    None => {
                        proof {
                            let nf = warnings@.subrange(base.len() as int, warnings@.len() as int);
                            match step_record(s@, st) {
                                Step::Stop(n) => {
                                    assert(nf =~= n.warnings);
                                },
                                _ => {},
                            }
                            found = nf;
                        }
                        reader.seek(pos);
                        return Ok(data);
                    },
                }
            } else {
                reader.seek(pos);
                return Ok(data);
            }
        }
    }
}

/// Decodes the optional-data record at `pos` into `data`. Returns the offset
/// after it, or `None` where the record is cut short (the warning is then
/// pushed).
fn read_record(
    s: &Vec<u8>,
    pos: usize,
    data: &mut ItemData,
    warnings: &mut Vec<Warning>,
    Ghost(base): Ghost<Seq<Warning>>,
    Ghost(found): Ghost<Seq<Warning>>,
) -> (r: Option<usize>)
    requires
        pos < s@.len(),
        old(warnings)@ == base + found,
    ensures
        ({
            let st = ParseState { pos: pos as int, in_attrs: true, data: old(data)@, warnings: found };
            match step_record(s@, st) {
                Step::Next(n) => r == Some(n.pos as usize) && n.pos > pos && n.pos <= s@.len()
                    && final(data)@ == n.data && final(warnings)@ == base + n.warnings && n.in_attrs,
                Step::Stop(n) => r is None && final(data)@ == n.data && final(warnings)@ == base
                    + n.warnings,
                Step::Fail(_) => false,
            }
        }),
{
    let len = s.len();
    if len - pos < 5 {
        warnings.push(Warning::Truncated { offset: pos });
        assert(warnings@ =~= base + found.push(Warning::Truncated { offset: pos }));
        return None;
    }
    let id = s[pos + 1];
    let b1 = s[pos + 2];
    let b2 = s[pos + 3];
    let b3 = s[pos + 4];
    let short_len = b3 as usize;
    let long_len = b2 as usize * 256 + b3 as usize;
    if id == 0 || id == 4 {
        if short_len > len - pos - 5 {
            warnings.push(Warning::Truncated { offset: pos });
            assert(warnings@ =~= base + found.push(Warning::Truncated { offset: pos }));
            return None;
        }
        let t = Some(ByteString::new(get_bytes(s, pos + 5, pos + 5 + short_len)));
        if id == 0 {
            data.icao_code = t;
        } else {
            data.notam_id = t;
        }
        Some(pos + 5 + short_len)
    } else if id == 1 {
        data.secondary_frequency = Some(((b1 as u32) << 16u32) | ((b2 as u32) << 8u32) | (b3 as u32));
        Some(pos + 5)
    } else if id == 2 || id == 3 {
        if long_len > len - pos - 5 {
            warnings.push(Warning::Truncated { offset: pos });
            assert(warnings@ =~= base + found.push(Warning::Truncated { offset: pos }));
            return None;
        }
        let t = Some(ByteString::new(get_bytes(s, pos + 5, pos + 5 + long_len)));
        if id == 2 {
            data.exception_rules = t;
        } else {
            data.notam_remarks = t;
        }
        Some(pos + 5 + long_len)
    } else if id == 5 {
        if len - pos < 6 {
            warnings.push(Warning::Truncated { offset: pos });
            assert(warnings@ =~= base + found.push(Warning::Truncated { offset: pos }));
            return None;
        }
        data.notam_insert_time = Some(get_u32(s, pos + 2, ByteOrder::BE));
        Some(pos + 6)
    } else {
        warnings.push(Warning::UnknownDataId(id));
        assert(warnings@ =~= base + found.push(Warning::UnknownDataId(id)));
        Some(pos + 5)
    }
}

} // verus!

verus! {

/// `n` zero bytes.
pub open spec fn zeros(n: int) -> Seq<u8> {
    Seq::new(n as nat, |i: int| 0u8)
}

/// `min(a, b)`.
pub open spec fn min(a: int, b: int) -> int {
    if a < b {
        a
    } else {
        b
    }
}

/// The name record: flag with the length (at most 63), the rest of a
/// point-sized slot as zeros, then the name bytes.
pub open spec fn name_part(name: Option<Seq<u8>>, sop: i32) -> Seq<u8> {
    match name {
        Some(t) => {
            let k = min(t.len() as int, 63);
            seq![(0x40 + k) as u8] + zeros(sop - 1) + t.subrange(0, k)
        },
        None => Seq::empty(),
    }
}

/// The frequency record: flag with the label length (at most 63), the
/// frequency, then the label bytes.
pub open spec fn frequency_part(
    frequency: Option<u32>,
    label: Option<Seq<u8>>,
    order: ByteOrder,
) -> Seq<u8> {
    match frequency {
        Some(f) => {
            let t = match label {
                Some(t) => t,
                None => Seq::empty(),
            };
            let k = min(t.len() as int, 63);
            seq![(0xC0 + k) as u8] + u32_bytes(f, order) + t.subrange(0, k)
        },
        None => Seq::empty(),
    }
}

/// An optional-data record whose length (at most 255) is its third payload
/// byte.
pub open spec fn short_record(id: u8, text: Option<Seq<u8>>) -> Seq<u8> {
    match text {
        Some(t) => {
            let k = min(t.len() as int, 255);
            seq![OPTIONAL_DATA_FLAG, id, 0u8, 0u8, k as u8] + t.subrange(0, k)
        },
        None => Seq::empty(),
    }
}

/// An optional-data record whose length (at most 65535) is its second and
/// third payload bytes, high byte first.
pub open spec fn long_record(id: u8, text: Option<Seq<u8>>) -> Seq<u8> {
    match text {
        Some(t) => {
            let k = min(t.len() as int, 65535);
            seq![OPTIONAL_DATA_FLAG, id, 0u8, (k / 256) as u8, (k % 256) as u8] + t.subrange(0, k)
        },
        None => Seq::empty(),
    }
}

/// The secondary-frequency record: the low 24 bits of the value, high byte
/// first.
pub open spec fn secondary_part(f: Option<u32>) -> Seq<u8> {
    match f {
        Some(v) => seq![
            OPTIONAL_DATA_FLAG,
            1u8,
            ((v >> 16u32) & 0xff) as u8,
            ((v >> 8u32) & 0xff) as u8,
            (v & 0xff) as u8,
        ],
        None => Seq::empty(),
    }
}

/// The insert-time record: the value in four bytes, high byte first.
pub open spec fn insert_time_part(t: Option<u32>) -> Seq<u8> {
    match t {
        Some(v) => seq![OPTIONAL_DATA_FLAG, 5u8] + u32_bytes(v, ByteOrder::BE),
        None => Seq::empty(),
    }
}

/// The bytes of an item's stream. Over-long text fields are cut to what
/// their length field can say.
pub open spec fn encode_item_data(d: ItemDataView, order: ByteOrder, sop: i32) -> Seq<u8> {
    ops_bytes(d.point_ops, order) + name_part(d.name, sop) + frequency_part(
        d.frequency,
        d.frequency_name,
        order,
    ) + short_record(0, d.icao_code) + secondary_part(d.secondary_frequency) + long_record(
        2,
        d.exception_rules,
    ) + long_record(3, d.notam_remarks) + short_record(4, d.notam_id) + insert_time_part(
        d.notam_insert_time,
    )
}

/// Appends the first `k` bytes of `t`.
fn push_prefix(out: &mut Vec<u8>, t: &ByteString, k: usize)
    requires
        k <= t@.len(),
    ensures
        final(out)@ == old(out)@ + t@.subrange(0, k as int),
{
    let b = get_bytes(&t.0, 0, k);
    push_all(out, &b);
}

/// Appends a record of [`short_record`] shape.
fn write_short_record(out: &mut Vec<u8>, id: u8, text: &Option<ByteString>)
    ensures
        final(out)@ == old(out)@ + short_record(id, text_view(*text)),
{
    if let Some(t) = text {
        let k = if t.len() < 255 {
            t.len()
        } else {
            255
        };
        out.push(OPTIONAL_DATA_FLAG);
        out.push(id);
        out.push(0);
        out.push(0);
        out.push(k as u8);
        push_prefix(out, t, k);
        assert(final(out)@ =~= old(out)@ + short_record(id, text_view(*text)));
    } else {
        assert(final(out)@ =~= old(out)@ + short_record(id, text_view(*text)));
    }
}

/// Appends a record of [`long_record`] shape.
fn write_long_record(out: &mut Vec<u8>, id: u8, text: &Option<ByteString>)
    ensures
        final(out)@ == old(out)@ + long_record(id, text_view(*text)),
{
    if let Some(t) = text {
        let k = if t.len() < 65535 {
            t.len()
        } else {
            65535
        };
        out.push(OPTIONAL_DATA_FLAG);
        out.push(id);
        out.push(0);
        out.push((k / 256) as u8);
        out.push((k % 256) as u8);
        push_prefix(out, t, k);
        assert(final(out)@ =~= old(out)@ + long_record(id, text_view(*text)));
    } else {
        assert(final(out)@ =~= old(out)@ + long_record(id, text_view(*text)));
    }
}

/// Appends the records of `ops`.
fn write_ops(out: &mut Vec<u8>, ops: &Vec<PointOp>, order: ByteOrder)
    ensures
        final(out)@ == old(out)@ + ops_bytes(ops@, order),
{
    let mut i: usize = 0;
    while i < ops.len()
        invariant
            i <= ops@.len(),
            out@ == old(out)@ + ops_bytes(ops@.subrange(0, i as int), order),
        decreases ops@.len() - i,
    {
        let ghost before = out@;
        let _ = ops[i].write(out, order);
        i += 1;
        assert(ops@.subrange(0, i as int).drop_last() =~= ops@.subrange(0, i - 1));
        assert(out@ =~= old(out)@ + ops_bytes(ops@.subrange(0, i as int), order));
    }
    assert(ops@.subrange(0, i as int) =~= ops@);
}

/// Appends the name record, if there is a name.
fn write_name(out: &mut Vec<u8>, name: &Option<ByteString>, sop: i32)
    requires
        sop >= 1,
    ensures
        final(out)@ == old(out)@ + name_part(text_view(*name), sop),
{
    if let Some(name) = name {
        let k = if name.len() < 63 {
            name.len()
        } else {
            63
        };
        out.push((0x40 + k) as u8);
        push_zeros(out, (sop - 1) as usize);
        push_prefix(out, name, k);
    }
    assert(final(out)@ =~= old(out)@ + name_part(text_view(*name), sop));
}

/// Appends the frequency record, if there is a frequency.
fn write_frequency(
    out: &mut Vec<u8>,
    frequency: Option<u32>,
    label: &Option<ByteString>,
    order: ByteOrder,
)
    ensures
        final(out)@ == old(out)@ + frequency_part(frequency, text_view(*label), order),
{
    if let Some(f) = frequency {
        let k = match label {
            Some(t) => if t.len() < 63 {
                t.len()
            } else {
                63
            },
            None => 0,
        };
        out.push((0xC0 + k) as u8);
        let _ = write_u32(out, f, order);
        if let Some(t) = label {
            push_prefix(out, t, k);
        }
    }
    assert(final(out)@ =~= old(out)@ + frequency_part(frequency, text_view(*label), order));
}

/// Appends the secondary-frequency record, if there is one.
fn write_secondary(out: &mut Vec<u8>, f: Option<u32>)
    ensures
        final(out)@ == old(out)@ + secondary_part(f),
{
    if let Some(v) = f {
        out.push(OPTIONAL_DATA_FLAG);
        out.push(1);
        out.push(((v >> 16u32) & 0xff) as u8);
        out.push(((v >> 8u32) & 0xff) as u8);
        out.push((v & 0xff) as u8);
    }
    assert(final(out)@ =~= old(out)@ + secondary_part(f));
}

/// Appends the insert-time record, if there is one.
fn write_insert_time(out: &mut Vec<u8>, t: Option<u32>)
    ensures
        final(out)@ == old(out)@ + insert_time_part(t),
{
    if let Some(v) = t {
        out.push(OPTIONAL_DATA_FLAG);
        out.push(5);
        let _ = write_u32(out, v, ByteOrder::BE);
    }
    assert(final(out)@ =~= old(out)@ + insert_time_part(t));
}

impl ItemData {
    /// Appends the item's stream and returns how many bytes it took.
    ///
    /// The name is preceded by `header.size_of_point - 1` zero bytes; text
    /// fields longer than their length field allows are cut (name and
    /// frequency label to 63 bytes, ICAO code and NOTAM id to 255, exception
    /// rules and NOTAM remarks to 65535).
    pub fn write(&self, out: &mut Vec<u8>, header: &Header) -> (r: Result<usize, Error>)
        requires
            header.size_of_point >= MIN_SIZE_OF_POINT,
        ensures
            final(out)@ == old(out)@ + encode_item_data(
                self@,
                ByteOrder::from_selector(header.pc_byte_order),
                header.size_of_point,
            ),
            r == Ok::<usize, Error>(
                encode_item_data(
                    self@,
                    ByteOrder::from_selector(header.pc_byte_order),
                    header.size_of_point,
                ).len() as usize,
            ),
    {
        let order = header.byte_order();
        let sop = header.size_of_point;
        let mut buf: Vec<u8> = Vec::new();
        write_ops(&mut buf, &self.point_ops, order);
        assert(buf@ =~= ops_bytes(self@.point_ops, order));
        write_name(&mut buf, &self.name, sop);
        write_frequency(&mut buf, self.frequency, &self.frequency_name, order);
        write_short_record(&mut buf, 0, &self.icao_code);
        write_secondary(&mut buf, self.secondary_frequency);
        write_long_record(&mut buf, 2, &self.exception_rules);
        write_long_record(&mut buf, 3, &self.notam_remarks);
        write_short_record(&mut buf, 4, &self.notam_id);
        write_insert_time(&mut buf, self.notam_insert_time);
        push_all(out, &buf);
        Ok(buf.len())
    }
}

} // verus!

verus! {

/// The state of the parser in the geometry section at `pos`.
pub open spec fn ops_state(pos: int, d: ItemDataView, w: Seq<Warning>) -> ParseState {
    ParseState { pos, in_attrs: false, data: d, warnings: w }
}

/// Geometry records take five bytes each.
proof fn lemma_ops_bytes_len(ops: Seq<PointOp>, o: ByteOrder)
    ensures
        ops_bytes(ops, o).len() == 5 * ops.len(),
    decreases ops.len(),
{
    if ops.len() > 0 {
        lemma_ops_bytes_len(ops.drop_last(), o);
    }
}

/// Record `k` of an encoded sequence sits at offset `5 * k`.
proof fn lemma_ops_bytes_at(ops: Seq<PointOp>, o: ByteOrder, k: int)
    requires
        0 <= k < ops.len(),
    ensures
        ops_bytes(ops, o).subrange(5 * k, 5 * k + 5) == crate::point_op::op_bytes(ops[k], o),
    decreases ops.len(),
{
    let init = ops.drop_last();
    lemma_ops_bytes_len(init, o);
    lemma_ops_bytes_len(ops, o);
    let last = crate::point_op::op_bytes(ops.last(), o);
    if k == ops.len() - 1 {
        assert(ops_bytes(ops, o).subrange(5 * k, 5 * k + 5) =~= last);
    } else {
        lemma_ops_bytes_at(init, o, k);
        assert(ops_bytes(ops, o).subrange(5 * k, 5 * k + 5) =~= ops_bytes(init, o).subrange(
            5 * k,
            5 * k + 5,
        ));
    }
}

/// Parsing the geometry records of `ops`, laid out at `base`, adds them to
/// the decoded records, one by one.
proof fn lemma_run_ops(
    s: Seq<u8>,
    base: int,
    ops: Seq<PointOp>,
    o: ByteOrder,
    sop: i32,
    d: ItemDataView,
    w: Seq<Warning>,
    k: int,
)
    requires
        0 <= base,
        0 <= k <= ops.len(),
        base + 5 * ops.len() <= s.len(),
        s.subrange(base, base + 5 * ops.len()) == ops_bytes(ops, o),
    ensures
        run(s, ops_state(base, d, w), o, sop) == run(
            s,
            ops_state(
                base + 5 * k,
                ItemDataView { point_ops: d.point_ops + ops.subrange(0, k), ..d },
                w,
            ),
            o,
            sop,
        ),
    decreases k,
{
    if k == 0 {
        assert(d.point_ops + ops.subrange(0, 0) =~= d.point_ops);
    } else {
        lemma_run_ops(s, base, ops, o, sop, d, w, k - 1);
        lemma_ops_bytes_len(ops, o);
        lemma_ops_bytes_at(ops, o, k - 1);
        let p = base + 5 * (k - 1);
        let op = ops[k - 1];
        let rec = s.subrange(p, p + 5);
        assert(rec =~= ops_bytes(ops, o).subrange(5 * (k - 1), 5 * (k - 1) + 5));
        let (x, y) = match op {
            PointOp::MoveOrigin { x, y } => (x, y),
            PointOp::NewPoint { x, y } => (x, y),
        };
        crate::io::lemma_i16_round_trip(x, o);
        crate::io::lemma_i16_round_trip(y, o);
        assert(s.subrange(p + 1, p + 3) =~= rec.subrange(1, 3));
        assert(s.subrange(p + 3, p + 5) =~= rec.subrange(3, 5));
        assert(rec.subrange(1, 3) =~= crate::io::i16_bytes(x, o));
        assert(rec.subrange(3, 5) =~= crate::io::i16_bytes(y, o));
        let before = ItemDataView { point_ops: d.point_ops + ops.subrange(0, k - 1), ..d };
        let after = ItemDataView { point_ops: d.point_ops + ops.subrange(0, k), ..d };
        assert(before.point_ops.push(op) =~= after.point_ops);
        assert(s[p] == rec[0]);
        match op {
            PointOp::MoveOrigin { .. } => assert(rec[0] == POINT_OP_MOVE_ORIGIN),
            PointOp::NewPoint { .. } => assert(rec[0] == POINT_OP_NEW_POINT),
        }
        let st = ops_state(p, before, w);
        let next = ops_state(p + 5, after, w);
        assert(step(s, st, o, sop) == Step::Next(next));
        assert(run(s, st, o, sop) == run(s, next, o, sop));
    }
}

} // verus!

verus! {

/// The state of the parser in the attribute section at `pos`.
pub open spec fn attr_state(pos: int, d: ItemDataView, w: Seq<Warning>) -> ParseState {
    ParseState { pos, in_attrs: true, data: d, warnings: w }
}

/// A stream that can be written and read back unchanged: any attribute
/// comes with a name, a label with a frequency, no text is empty where an
/// empty one reads as absent, every text fits its length field, and the
/// secondary frequency fits 24 bits.
pub open spec fn item_data_is_valid(d: ItemDataView) -> bool {
    &&& match d.name {
        Some(t) => 1 <= t.len() <= 63,
        None => d.frequency is None && d.icao_code is None && d.secondary_frequency is None
            && d.exception_rules is None && d.notam_remarks is None && d.notam_id is None
            && d.notam_insert_time is None,
    }
    &&& match d.frequency_name {
        Some(t) => d.frequency is Some && 1 <= t.len() <= 63,
        None => true,
    }
    &&& match d.icao_code {
        Some(t) => t.len() <= 255,
        None => true,
    }
    &&& match d.notam_id {
        Some(t) => t.len() <= 255,
        None => true,
    }
    &&& match d.exception_rules {
        Some(t) => t.len() <= 65535,
        None => true,
    }
    &&& match d.notam_remarks {
        Some(t) => t.len() <= 65535,
        None => true,
    }
    &&& match d.secondary_frequency {
        Some(v) => v < 0x100_0000,
        None => true,
    }
}

/// The name record moves the parser into the attribute section with the name.
proof fn lemma_run_name(
    s: Seq<u8>,
    q: int,
    t: Seq<u8>,
    o: ByteOrder,
    sop: i32,
    d: ItemDataView,
    w: Seq<Warning>,
)
    requires
        0 <= q,
        1 <= t.len() <= 63,
        sop >= 5,
        q + name_part(Some(t), sop).len() <= s.len(),
        s.subrange(q, q + name_part(Some(t), sop).len()) == name_part(Some(t), sop),
    ensures
        name_part(Some(t), sop).len() == sop + t.len(),
        run(s, ops_state(q, d, w), o, sop) == run(
            s,
            attr_state(q + sop + t.len(), ItemDataView { name: Some(t), ..d }, w),
            o,
            sop,
        ),
{
    let part = name_part(Some(t), sop);
    let k = t.len() as int;
    assert(part.len() == sop + k);
    let flag = (0x40 + k) as u8;
    assert(s[q] == part[0]);
    assert(part[0] == flag);
    assert(flag & ATTRIBUTE_FLAG != 0 && flag & 0x3f == flag - 0x40u8) by (bit_vector)
        requires
            flag >= 0x40,
            flag <= 0x7f,
    ;
    assert(low6(flag) == k);
    assert(t.subrange(0, k) =~= t);
    assert(s.subrange(q + sop, q + sop + k) =~= part.subrange(sop as int, sop + k));
    assert(part.subrange(sop as int, sop + k) =~= t);
    let st = ops_state(q, d, w);
    let next = attr_state(q + sop + k, ItemDataView { name: Some(t), ..d }, w);
    assert(step(s, st, o, sop) == Step::Next(next));
}

/// The frequency record sets the frequency and its label.
proof fn lemma_run_frequency(
    s: Seq<u8>,
    p: int,
    f: u32,
    label: Option<Seq<u8>>,
    o: ByteOrder,
    sop: i32,
    d: ItemDataView,
    w: Seq<Warning>,
)
    requires
        0 <= p,
        match label {
            Some(t) => 1 <= t.len() <= 63,
            None => d.frequency_name is None,
        },
        p + frequency_part(Some(f), label, o).len() <= s.len(),
        s.subrange(p, p + frequency_part(Some(f), label, o).len()) == frequency_part(
            Some(f),
            label,
            o,
        ),
    ensures
        run(s, attr_state(p, d, w), o, sop) == run(
            s,
            attr_state(
                p + frequency_part(Some(f), label, o).len(),
                ItemDataView { frequency: Some(f), frequency_name: label, ..d },
                w,
            ),
            o,
            sop,
        ),
{
    let part = frequency_part(Some(f), label, o);
    let t = match label {
        Some(t) => t,
        None => Seq::empty(),
    };
    let k = t.len() as int;
    crate::io::lemma_u32_round_trip(f, o);
    assert(part.len() == 5 + k);
    let flag = (0xC0 + k) as u8;
    assert(s[p] == part[0]);
    assert(part[0] == flag);
    assert(flag & FREQUENCY_FLAG == FREQUENCY_FLAG && flag & 0x3f == flag - 0xC0u8) by (bit_vector)
        requires
            flag >= 0xC0,
    ;
    assert(low6(flag) == k);
    assert(t.subrange(0, k) =~= t);
    assert(s.subrange(p + 1, p + 5) =~= part.subrange(1, 5));
    assert(part.subrange(1, 5) =~= u32_bytes(f, o));
    assert(s.subrange(p + 5, p + 5 + k) =~= part.subrange(5, 5 + k));
    assert(part.subrange(5, 5 + k) =~= t);
    let st = attr_state(p, d, w);
    let next = attr_state(
        p + 5 + k,
        ItemDataView { frequency: Some(f), frequency_name: label, ..d },
        w,
    );
    assert(step(s, st, o, sop) == Step::Next(next));
}

/// A short-length record (ICAO code, NOTAM id) sets its text.
proof fn lemma_run_short(
    s: Seq<u8>,
    p: int,
    id: u8,
    t: Seq<u8>,
    o: ByteOrder,
    sop: i32,
    d: ItemDataView,
    w: Seq<Warning>,
)
    requires
        0 <= p,
        id == 0 || id == 4,
        t.len() <= 255,
        p + short_record(id, Some(t)).len() <= s.len(),
        s.subrange(p, p + short_record(id, Some(t)).len()) == short_record(id, Some(t)),
    ensures
        short_record(id, Some(t)).len() == 5 + t.len(),
        run(s, attr_state(p, d, w), o, sop) == run(
            s,
            attr_state(
                p + 5 + t.len(),
                if id == 0 {
                    ItemDataView { icao_code: Some(t), ..d }
                } else {
                    ItemDataView { notam_id: Some(t), ..d }
                },
                w,
            ),
            o,
            sop,
        ),
{
    let part = short_record(id, Some(t));
    let k = t.len() as int;
    assert(t.subrange(0, k) =~= t);
    assert(part.len() == 5 + k);
    assert(s[p] == part[0] && s[p + 1] == part[1] && s[p + 4] == part[4]);
    assert(OPTIONAL_DATA_FLAG & FREQUENCY_FLAG != FREQUENCY_FLAG) by (bit_vector);
    assert(s.subrange(p + 5, p + 5 + k) =~= part.subrange(5, 5 + k));
    assert(part.subrange(5, 5 + k) =~= t);
}

/// A long-length record (exception rules, NOTAM remarks) sets its text.
proof fn lemma_run_long(
    s: Seq<u8>,
    p: int,
    id: u8,
    t: Seq<u8>,
    o: ByteOrder,
    sop: i32,
    d: ItemDataView,
    w: Seq<Warning>,
)
    requires
        0 <= p,
        id == 2 || id == 3,
        t.len() <= 65535,
        p + long_record(id, Some(t)).len() <= s.len(),
        s.subrange(p, p + long_record(id, Some(t)).len()) == long_record(id, Some(t)),
    ensures
        long_record(id, Some(t)).len() == 5 + t.len(),
        run(s, attr_state(p, d, w), o, sop) == run(
            s,
            attr_state(
                p + 5 + t.len(),
                if id == 2 {
                    ItemDataView { exception_rules: Some(t), ..d }
                } else {
                    ItemDataView { notam_remarks: Some(t), ..d }
                },
                w,
            ),
            o,
            sop,
        ),
{
    let part = long_record(id, Some(t));
    let k = t.len() as int;
    assert(t.subrange(0, k) =~= t);
    assert(part.len() == 5 + k);
    assert(s[p] == part[0] && s[p + 1] == part[1] && s[p + 3] == part[3] && s[p + 4] == part[4]);
    assert(((k / 256) as u8) as int * 256 + ((k % 256) as u8) as int == k);
    assert(OPTIONAL_DATA_FLAG & FREQUENCY_FLAG != FREQUENCY_FLAG) by (bit_vector);
    assert(s.subrange(p + 5, p + 5 + k) =~= part.subrange(5, 5 + k));
    assert(part.subrange(5, 5 + k) =~= t);
}

/// The secondary-frequency record sets the secondary frequency.
proof fn lemma_run_secondary(
    s: Seq<u8>,
    p: int,
    v: u32,
    o: ByteOrder,
    sop: i32,
    d: ItemDataView,
    w: Seq<Warning>,
)
    requires
        0 <= p,
        v < 0x100_0000,
        p + 5 <= s.len(),
        s.subrange(p, p + 5) == secondary_part(Some(v)),
    ensures
        run(s, attr_state(p, d, w), o, sop) == run(
            s,
            attr_state(p + 5, ItemDataView { secondary_frequency: Some(v), ..d }, w),
            o,
            sop,
        ),
{
    let part = secondary_part(Some(v));
    assert(s[p] == part[0] && s[p + 1] == part[1] && s[p + 2] == part[2] && s[p + 3] == part[3]
        && s[p + 4] == part[4]);
    let (b1, b2, b3) = (part[2], part[3], part[4]);
    assert(((b1 as u32) << 16u32) | ((b2 as u32) << 8u32) | (b3 as u32) == v) by (bit_vector)
        requires
            v < 0x100_0000,
            b1 == ((v >> 16u32) & 0xff) as u8,
            b2 == ((v >> 8u32) & 0xff) as u8,
            b3 == (v & 0xff) as u8,
    ;
    assert(OPTIONAL_DATA_FLAG & FREQUENCY_FLAG != FREQUENCY_FLAG) by (bit_vector);
}

/// The insert-time record sets the insert time.
proof fn lemma_run_insert_time(
    s: Seq<u8>,
    p: int,
    v: u32,
    o: ByteOrder,
    sop: i32,
    d: ItemDataView,
    w: Seq<Warning>,
)
    requires
        0 <= p,
        p + 6 <= s.len(),
        s.subrange(p, p + 6) == insert_time_part(Some(v)),
    ensures
        run(s, attr_state(p, d, w), o, sop) == run(
            s,
            attr_state(p + 6, ItemDataView { notam_insert_time: Some(v), ..d }, w),
            o,
            sop,
        ),
{
    let part = insert_time_part(Some(v));
    crate::io::lemma_u32_round_trip(v, ByteOrder::BE);
    assert(s[p] == part[0] && s[p + 1] == part[1]);
    assert(s.subrange(p + 2, p + 6) =~= part.subrange(2, 6));
    assert(part.subrange(2, 6) =~= u32_bytes(v, ByteOrder::BE));
    assert(OPTIONAL_DATA_FLAG & FREQUENCY_FLAG != FREQUENCY_FLAG) by (bit_vector);
}

} // verus!

verus! {

/// Where nine pieces lie in their concatenation after `prefix`.
proof fn lemma_pieces(
    prefix: Seq<u8>,
    part1: Seq<u8>,
    part2: Seq<u8>,
    part3: Seq<u8>,
    part4: Seq<u8>,
    part5: Seq<u8>,
    part6: Seq<u8>,
    part7: Seq<u8>,
    part8: Seq<u8>,
    part9: Seq<u8>,
)
    ensures
        ({
            let s = prefix + (part1 + part2 + part3 + part4 + part5 + part6 + part7 + part8 + part9);
            let o1 = prefix.len() + part1.len();
            let o2 = o1 + part2.len();
            let o3 = o2 + part3.len();
            let o4 = o3 + part4.len();
            let o5 = o4 + part5.len();
            let o6 = o5 + part6.len();
            let o7 = o6 + part7.len();
            let o8 = o7 + part8.len();
            &&& s.len() == o8 + part9.len()
            &&& s.subrange(prefix.len() as int, o1 as int) == part1
            &&& s.subrange(o1 as int, o2 as int) == part2
            &&& s.subrange(o2 as int, o3 as int) == part3
            &&& s.subrange(o3 as int, o4 as int) == part4
            &&& s.subrange(o4 as int, o5 as int) == part5
            &&& s.subrange(o5 as int, o6 as int) == part6
            &&& s.subrange(o6 as int, o7 as int) == part7
            &&& s.subrange(o7 as int, o8 as int) == part8
            &&& s.subrange(o8 as int, s.len() as int) == part9
        }),
{
    let s = prefix + (part1 + part2 + part3 + part4 + part5 + part6 + part7 + part8 + part9);
    let o1 = prefix.len() + part1.len();
    let o2 = o1 + part2.len();
    let o3 = o2 + part3.len();
    let o4 = o3 + part4.len();
    let o5 = o4 + part5.len();
    let o6 = o5 + part6.len();
    let o7 = o6 + part7.len();
    let o8 = o7 + part8.len();
    assert(s.subrange(prefix.len() as int, o1 as int) =~= part1);
    assert(s.subrange(o1 as int, o2 as int) =~= part2);
    assert(s.subrange(o2 as int, o3 as int) =~= part3);
    assert(s.subrange(o3 as int, o4 as int) =~= part4);
    assert(s.subrange(o4 as int, o5 as int) =~= part5);
    assert(s.subrange(o5 as int, o6 as int) =~= part6);
    assert(s.subrange(o6 as int, o7 as int) =~= part7);
    assert(s.subrange(o7 as int, o8 as int) =~= part8);
    assert(s.subrange(o8 as int, s.len() as int) =~= part9);
}

/// The stream with its frequency record decoded.
pub open spec fn with_frequency(d: ItemDataView, f: Option<u32>, label: Option<Seq<u8>>) -> ItemDataView {
    match f {
        Some(v) => ItemDataView { frequency: Some(v), frequency_name: label, ..d },
        None => d,
    }
}

/// The stream with a short-length record decoded.
pub open spec fn with_short(d: ItemDataView, id: u8, t: Option<Seq<u8>>) -> ItemDataView {
    match t {
        Some(c) => if id == 0 {
            ItemDataView { icao_code: Some(c), ..d }
        } else {
            ItemDataView { notam_id: Some(c), ..d }
        },
        None => d,
    }
}

/// The stream with a long-length record decoded.
pub open spec fn with_long(d: ItemDataView, id: u8, t: Option<Seq<u8>>) -> ItemDataView {
    match t {
        Some(c) => if id == 2 {
            ItemDataView { exception_rules: Some(c), ..d }
        } else {
            ItemDataView { notam_remarks: Some(c), ..d }
        },
        None => d,
    }
}

/// The stream with its secondary frequency decoded.
pub open spec fn with_secondary(d: ItemDataView, v: Option<u32>) -> ItemDataView {
    match v {
        Some(x) => ItemDataView { secondary_frequency: Some(x), ..d },
        None => d,
    }
}

/// The stream with its insert time decoded.
pub open spec fn with_insert_time(d: ItemDataView, v: Option<u32>) -> ItemDataView {
    match v {
        Some(x) => ItemDataView { notam_insert_time: Some(x), ..d },
        None => d,
    }
}

proof fn lemma_opt_frequency(
    s: Seq<u8>,
    p: int,
    f: Option<u32>,
    label: Option<Seq<u8>>,
    o: ByteOrder,
    sop: i32,
    d: ItemDataView,
    w: Seq<Warning>,
)
    requires
        0 <= p,
        match label {
            Some(t) => f is Some && 1 <= t.len() <= 63,
            None => d.frequency_name is None,
        },
        p + frequency_part(f, label, o).len() <= s.len(),
        s.subrange(p, p + frequency_part(f, label, o).len()) == frequency_part(f, label, o),
    ensures
        run(s, attr_state(p, d, w), o, sop) == run(
            s,
            attr_state(p + frequency_part(f, label, o).len(), with_frequency(d, f, label), w),
            o,
            sop,
        ),
{
    if let Some(v) = f {
        lemma_run_frequency(s, p, v, label, o, sop, d, w);
    }
}

proof fn lemma_opt_short(
    s: Seq<u8>,
    p: int,
    id: u8,
    t: Option<Seq<u8>>,
    o: ByteOrder,
    sop: i32,
    d: ItemDataView,
    w: Seq<Warning>,
)
    requires
        0 <= p,
        id == 0 || id == 4,
        match t {
            Some(c) => c.len() <= 255,
            None => true,
        },
        p + short_record(id, t).len() <= s.len(),
        s.subrange(p, p + short_record(id, t).len()) == short_record(id, t),
    ensures
        run(s, attr_state(p, d, w), o, sop) == run(
            s,
            attr_state(p + short_record(id, t).len(), with_short(d, id, t), w),
            o,
            sop,
        ),
{
    if let Some(c) = t {
        lemma_run_short(s, p, id, c, o, sop, d, w);
    }
}

proof fn lemma_opt_long(
    s: Seq<u8>,
    p: int,
    id: u8,
    t: Option<Seq<u8>>,
    o: ByteOrder,
    sop: i32,
    d: ItemDataView,
    w: Seq<Warning>,
)
    requires
        0 <= p,
        id == 2 || id == 3,
        match t {
            Some(c) => c.len() <= 65535,
            None => true,
        },
        p + long_record(id, t).len() <= s.len(),
        s.subrange(p, p + long_record(id, t).len()) == long_record(id, t),
    ensures
        run(s, attr_state(p, d, w), o, sop) == run(
            s,
            attr_state(p + long_record(id, t).len(), with_long(d, id, t), w),
            o,
            sop,
        ),
{
    if let Some(c) = t {
        lemma_run_long(s, p, id, c, o, sop, d, w);
    }
}

proof fn lemma_opt_secondary(
    s: Seq<u8>,
    p: int,
    v: Option<u32>,
    o: ByteOrder,
    sop: i32,
    d: ItemDataView,
    w: Seq<Warning>,
)
    requires
        0 <= p,
        match v {
            Some(x) => x < 0x100_0000,
            None => true,
        },
        p + secondary_part(v).len() <= s.len(),
        s.subrange(p, p + secondary_part(v).len()) == secondary_part(v),
    ensures
        run(s, attr_state(p, d, w), o, sop) == run(
            s,
            attr_state(p + secondary_part(v).len(), with_secondary(d, v), w),
            o,
            sop,
        ),
{
    if let Some(x) = v {
        lemma_run_secondary(s, p, x, o, sop, d, w);
    }
}

proof fn lemma_opt_insert_time(
    s: Seq<u8>,
    p: int,
    v: Option<u32>,
    o: ByteOrder,
    sop: i32,
    d: ItemDataView,
    w: Seq<Warning>,
)
    requires
        0 <= p,
        p + insert_time_part(v).len() <= s.len(),
        s.subrange(p, p + insert_time_part(v).len()) == insert_time_part(v),
    ensures
        run(s, attr_state(p, d, w), o, sop) == run(
            s,
            attr_state(p + insert_time_part(v).len(), with_insert_time(d, v), w),
            o,
            sop,
        ),
{
    if let Some(x) = v {
        lemma_run_insert_time(s, p, x, o, sop, d, w);
    }
}

/// The frequency, ICAO-code and secondary-frequency records, in a row.
proof fn lemma_attrs_head(
    s: Seq<u8>,
    p: int,
    d: ItemDataView,
    acc: ItemDataView,
    o: ByteOrder,
    sop: i32,
    w: Seq<Warning>,
)
    requires
        0 <= p,
        item_data_is_valid(d),
        acc.frequency_name is None,
        ({
            let q1 = p + frequency_part(d.frequency, d.frequency_name, o).len();
            let q2 = q1 + short_record(0, d.icao_code).len();
            let q3 = q2 + secondary_part(d.secondary_frequency).len();
            &&& q3 <= s.len()
            &&& s.subrange(p, q1) == frequency_part(d.frequency, d.frequency_name, o)
            &&& s.subrange(q1, q2) == short_record(0, d.icao_code)
            &&& s.subrange(q2, q3) == secondary_part(d.secondary_frequency)
        }),
    ensures
        ({
            let q1 = p + frequency_part(d.frequency, d.frequency_name, o).len();
            let q2 = q1 + short_record(0, d.icao_code).len();
            let q3 = q2 + secondary_part(d.secondary_frequency).len();
            run(s, attr_state(p, acc, w), o, sop) == run(
                s,
                attr_state(
                    q3,
                    with_secondary(
                        with_short(with_frequency(acc, d.frequency, d.frequency_name), 0, d.icao_code),
                        d.secondary_frequency,
                    ),
                    w,
                ),
                o,
                sop,
            )
        }),
{
    let q1 = p + frequency_part(d.frequency, d.frequency_name, o).len();
    let q2 = q1 + short_record(0, d.icao_code).len();
    lemma_opt_frequency(s, p, d.frequency, d.frequency_name, o, sop, acc, w);
    let a1 = with_frequency(acc, d.frequency, d.frequency_name);
    lemma_opt_short(s, q1, 0, d.icao_code, o, sop, a1, w);
    let a2 = with_short(a1, 0, d.icao_code);
    lemma_opt_secondary(s, q2, d.secondary_frequency, o, sop, a2, w);
}

/// The exception-rules, remarks, NOTAM-id and insert-time records, in a row,
/// up to the end of the input.
proof fn lemma_attrs_tail(
    s: Seq<u8>,
    p: int,
    d: ItemDataView,
    acc: ItemDataView,
    o: ByteOrder,
    sop: i32,
    w: Seq<Warning>,
)
    requires
        0 <= p,
        item_data_is_valid(d),
        ({
            let q1 = p + long_record(2, d.exception_rules).len();
            let q2 = q1 + long_record(3, d.notam_remarks).len();
            let q3 = q2 + short_record(4, d.notam_id).len();
            let q4 = q3 + insert_time_part(d.notam_insert_time).len();
            &&& q4 == s.len()
            &&& s.subrange(p, q1) == long_record(2, d.exception_rules)
            &&& s.subrange(q1, q2) == long_record(3, d.notam_remarks)
            &&& s.subrange(q2, q3) == short_record(4, d.notam_id)
            &&& s.subrange(q3, q4) == insert_time_part(d.notam_insert_time)
        }),
    ensures
        run(s, attr_state(p, acc, w), o, sop) == Ok::<ParseState, Error>(
            attr_state(
                s.len() as int,
                with_insert_time(
                    with_short(
                        with_long(with_long(acc, 2, d.exception_rules), 3, d.notam_remarks),
                        4,
                        d.notam_id,
                    ),
                    d.notam_insert_time,
                ),
                w,
            ),
        ),
{
    let q1 = p + long_record(2, d.exception_rules).len();
    let q2 = q1 + long_record(3, d.notam_remarks).len();
    let q3 = q2 + short_record(4, d.notam_id).len();
    lemma_opt_long(s, p, 2, d.exception_rules, o, sop, acc, w);
    let a1 = with_long(acc, 2, d.exception_rules);
    lemma_opt_long(s, q1, 3, d.notam_remarks, o, sop, a1, w);
    let a2 = with_long(a1, 3, d.notam_remarks);
    lemma_opt_short(s, q2, 4, d.notam_id, o, sop, a2, w);
    let a3 = with_short(a2, 4, d.notam_id);
    lemma_opt_insert_time(s, q3, d.notam_insert_time, o, sop, a3, w);
    let a4 = with_insert_time(a3, d.notam_insert_time);
    assert(run(s, attr_state(s.len() as int, a4, w), o, sop) == Ok::<ParseState, Error>(
        attr_state(s.len() as int, a4, w),
    ));
}

/// Decoding every attribute of `d` onto its geometry and name gives `d`.
proof fn lemma_all_attributes(d: ItemDataView, base: ItemDataView)
    requires
        base.point_ops == d.point_ops,
        base.name == d.name,
        base.frequency is None,
        base.frequency_name is None,
        base.icao_code is None,
        base.secondary_frequency is None,
        base.exception_rules is None,
        base.notam_remarks is None,
        base.notam_id is None,
        base.notam_insert_time is None,
        item_data_is_valid(d),
    ensures
        with_insert_time(
            with_short(
                with_long(
                    with_long(
                        with_secondary(
                            with_short(with_frequency(base, d.frequency, d.frequency_name), 0, d.icao_code),
                            d.secondary_frequency,
                        ),
                        2,
                        d.exception_rules,
                    ),
                    3,
                    d.notam_remarks,
                ),
                4,
                d.notam_id,
            ),
            d.notam_insert_time,
        ) == d,
{
}

/// Whether the attribute records of `d` follow one another in `s` from
/// offset `p` to the end.
pub open spec fn attrs_laid_out(s: Seq<u8>, p: int, d: ItemDataView, o: ByteOrder, sop: i32) -> bool {
    let o2 = p + name_part(d.name, sop).len();
    let o3 = o2 + frequency_part(d.frequency, d.frequency_name, o).len();
    let o4 = o3 + short_record(0, d.icao_code).len();
    let o5 = o4 + secondary_part(d.secondary_frequency).len();
    let o6 = o5 + long_record(2, d.exception_rules).len();
    let o7 = o6 + long_record(3, d.notam_remarks).len();
    let o8 = o7 + short_record(4, d.notam_id).len();
    &&& s.len() == o8 + insert_time_part(d.notam_insert_time).len()
    &&& s.subrange(p, o2) == name_part(d.name, sop)
    &&& s.subrange(o2, o3) == frequency_part(d.frequency, d.frequency_name, o)
    &&& s.subrange(o3, o4) == short_record(0, d.icao_code)
    &&& s.subrange(o4, o5) == secondary_part(d.secondary_frequency)
    &&& s.subrange(o5, o6) == long_record(2, d.exception_rules)
    &&& s.subrange(o6, o7) == long_record(3, d.notam_remarks)
    &&& s.subrange(o7, o8) == short_record(4, d.notam_id)
    &&& s.subrange(o8, s.len() as int) == insert_time_part(d.notam_insert_time)
}

/// From the end of the geometry records, the name and attribute records of a
/// valid stream decode to the stream.
proof fn lemma_after_ops(
    s: Seq<u8>,
    p: int,
    d: ItemDataView,
    d1: ItemDataView,
    o: ByteOrder,
    sop: i32,
)
    requires
        0 <= p,
        item_data_is_valid(d),
        sop >= MIN_SIZE_OF_POINT,
        attrs_laid_out(s, p, d, o, sop),
        d1.point_ops == d.point_ops,
        d1.name is None,
        d1.frequency is None,
        d1.frequency_name is None,
        d1.icao_code is None,
        d1.secondary_frequency is None,
        d1.exception_rules is None,
        d1.notam_remarks is None,
        d1.notam_id is None,
        d1.notam_insert_time is None,
    ensures
        ({
            let r = run(s, ops_state(p, d1, Seq::empty()), o, sop);
            r is Ok && r->Ok_0.data == d && r->Ok_0.warnings == Seq::<Warning>::empty()
        }),
{
    let w = Seq::<Warning>::empty();
    if d.name is None {
        assert(d1 == d);
    } else {
        let t = d.name->Some_0;
        lemma_run_name(s, p, t, o, sop, d1, w);
        let d2 = ItemDataView { name: Some(t), ..d1 };
        let o2 = p + name_part(d.name, sop).len();
        lemma_attrs_head(s, o2, d, d2, o, sop, w);
        let o5 = o2 + frequency_part(d.frequency, d.frequency_name, o).len() + short_record(
            0,
            d.icao_code,
        ).len() + secondary_part(d.secondary_frequency).len();
        let d5 = with_secondary(
            with_short(with_frequency(d2, d.frequency, d.frequency_name), 0, d.icao_code),
            d.secondary_frequency,
        );
        lemma_attrs_tail(s, o5, d, d5, o, sop, w);
        lemma_all_attributes(d, d2);
    }
}

/// A valid stream, written after any bytes and running to the end of the
/// input, reads back as the same stream with no warning: the end of the
/// input is where the stream ends.
pub proof fn lemma_item_data_round_trip(d: ItemDataView, o: ByteOrder, sop: i32, prefix: Seq<u8>)
    requires
        item_data_is_valid(d),
        sop >= MIN_SIZE_OF_POINT,
    ensures
        ({
            let r = parse_item_data(
                prefix + encode_item_data(d, o, sop),
                prefix.len() as int,
                o,
                sop,
            );
            r is Ok && r->Ok_0.data == d && r->Ok_0.warnings == Seq::<Warning>::empty()
        }),
{
    let s = prefix + encode_item_data(d, o, sop);
    let base = prefix.len() as int;
    let w = Seq::<Warning>::empty();
    let pa = ops_bytes(d.point_ops, o);
    let pn = name_part(d.name, sop);
    let pf = frequency_part(d.frequency, d.frequency_name, o);
    let pi = short_record(0, d.icao_code);
    let ps = secondary_part(d.secondary_frequency);
    let px = long_record(2, d.exception_rules);
    let pr = long_record(3, d.notam_remarks);
    let pd = short_record(4, d.notam_id);
    let pt = insert_time_part(d.notam_insert_time);
    assert(encode_item_data(d, o, sop) == pa + pn + pf + pi + ps + px + pr + pd + pt);
    lemma_pieces(prefix, pa, pn, pf, pi, ps, px, pr, pd, pt);
    lemma_ops_bytes_len(d.point_ops, o);
    let o1 = base + pa.len();
    assert(attrs_laid_out(s, o1, d, o, sop));
    let n = d.point_ops.len() as int;
    let d1 = ItemDataView { point_ops: empty_view().point_ops + d.point_ops.subrange(0, n), ..empty_view() };
    assert(d1.point_ops =~= d.point_ops);
    lemma_run_ops(s, base, d.point_ops, o, sop, empty_view(), w, n);
    lemma_after_ops(s, o1, d, d1, o, sop);
}

} // verus!
