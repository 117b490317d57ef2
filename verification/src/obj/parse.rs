//! From the text of a mesh description to its records.
//!
//! The lines are told apart by the `objld` crate. Scalars are read as values
//! of a type `S` that the caller names, and kept as the 32-bit patterns that
//! `u32::from` makes of them.

use vstd::prelude::*;
use std::str::FromStr;
use objld::{Face, LineResult, VertexData, VertexIndeces};
use crate::obj::record::{Corner, Record};

verus! {

/// `objld::LineResult`: what `objld` makes of one line. Opaque here.
#[verifier::external_type_specification]
#[verifier::external_body]
#[verifier::reject_recursive_types(T)]
#[verifier::reject_recursive_types(I)]
pub struct ExLineResult<T, I>(objld::LineResult<T, I>);

/// `objld::VertexData`: the scalars of one position, normal or texture
/// coordinate. Opaque here.
#[verifier::external_type_specification]
#[verifier::external_body]
#[verifier::reject_recursive_types(T)]
pub struct ExVertexData<T>(objld::VertexData<T>);

/// `objld::Face`: the corners of one face. Opaque here.
#[verifier::external_type_specification]
#[verifier::external_body]
#[verifier::reject_recursive_types(I)]
pub struct ExFace<I>(objld::Face<I>);

/// What one line of the text holds.
#[verifier::reject_recursive_types(S)]
enum Line<S> {
    Data(VertexData<S>),
    Face(Face<isize>),
    Blank,
    Malformed,
}

/// The results of `objld::parse_file` on `text`, gathered in order by
/// `rayon`'s `collect`. `objld::parse_file` cuts the text at every line feed,
/// as `str::split` does, and yields one result for each piece; so there are
/// as many results as lines. Nothing is claimed of the results themselves:
/// what a line is read as depends on how `S` reads a scalar.
#[verifier::external_body]
fn parse_lines<S: FromStr + Send>(text: &str) -> (lines: Vec<LineResult<S, isize>>)
    ensures
        lines@.len() == line_count(text@),
{
    rayon::iter::ParallelIterator::collect(objld::parse_file::<S, isize>(text))
}

/// Tells the four variants of `objld::LineResult` apart. The text of an
/// error is dropped.
#[verifier::external_body]
fn split_line<S>(line: LineResult<S, isize>) -> (parts: Line<S>) {
    match line {
        LineResult::VertDataLine(data) => Line::Data(data),
        LineResult::FaceLine(face) => Line::Face(face),
        LineResult::NoData => Line::Blank,
        LineResult::Error(_) => Line::Malformed,
    }
}

/// Tells the six variants of `objld::VertexData` apart and moves their
/// scalars into the record of the same kind.
#[verifier::external_body]
fn data_record<S>(data: VertexData<S>) -> (record: Record<S>) {
    match data {
        VertexData::Coord2 { x, y } => Record::Position2 { x, y },
        VertexData::Coord3 { x, y, z } => Record::Position3 { x, y, z },
        VertexData::Normal { x, y, z } => Record::Normal { x, y, z },
        VertexData::TextureCoord1 { u } => Record::TexCoord1 { u },
        VertexData::TextureCoord2 { u, v } => Record::TexCoord2 { u, v },
        VertexData::TextureCoord3 { u, v, w } => Record::TexCoord3 { u, v, w },
    }
}

/// Tells the two variants of `objld::Face` apart and moves the three indices
/// of each `objld::VertexIndeces` into a corner.
#[verifier::external_body]
fn face_record<S>(face: Face<isize>) -> (record: Record<S>) {
    let corner = |v: VertexIndeces<isize>|
        Corner { pos: v.coord_rindex, tex: v.texcoord_rindex, norm: v.normal_rindex };
    match face {
        Face::Face3 { v1, v2, v3 } => Record::Face3 { v1: corner(v1), v2: corner(v2), v3: corner(v3) },
        Face::Face4 { v1, v2, v3, v4 } => Record::Face4 { v1: corner(v1), v2: corner(v2), v3: corner(v3), v4: corner(v4) },
    }
}

/// The record `record` with each scalar as its 32-bit pattern.
fn to_bits<S>(record: Record<S>) -> (bits: Record<u32>) where u32: From<S>
    ensures
        bits.triangle_corners() == record.triangle_corners(),
        (bits.position() is Some) == (record.position() is Some),
        (bits.normal() is Some) == (record.normal() is Some),
        (bits.texcoord() is Some) == (record.texcoord() is Some),
        (bits is Blank) == (record is Blank),
        (bits is Malformed) == (record is Malformed),
{
    match record {
        Record::Position2 { x, y } => Record::Position2 { x: u32::from(x), y: u32::from(y) },
        Record::Position3 { x, y, z } => Record::Position3 {
            x: u32::from(x),
            y: u32::from(y),
            z: u32::from(z),
        },
        Record::Normal { x, y, z } => Record::Normal {
            x: u32::from(x),
            y: u32::from(y),
            z: u32::from(z),
        },
        Record::TexCoord1 { u } => Record::TexCoord1 { u: u32::from(u) },
        Record::TexCoord2 { u, v } => Record::TexCoord2 { u: u32::from(u), v: u32::from(v) },
        Record::TexCoord3 { u, v, w } => Record::TexCoord3 {
            u: u32::from(u),
            v: u32::from(v),
            w: u32::from(w),
        },
        Record::Face3 { v1, v2, v3 } => Record::Face3 { v1, v2, v3 },
        Record::Face4 { v1, v2, v3, v4 } => Record::Face4 { v1, v2, v3, v4 },
        Record::Blank => Record::Blank,
        Record::Malformed => Record::Malformed,
    }
}

/// The records of `text`, one for each of its lines, in order.
pub fn tokenize<S>(text: &str) -> (records: Vec<Record<u32>>) where S: FromStr + Send, u32: From<S>
    ensures
        records@.len() == line_count(text@),
{
    let lines = parse_lines::<S>(text);
    let ghost count = lines@.len();
    let mut records: Vec<Record<u32>> = Vec::new();
    for line in it: lines
        invariant
            count == line_count(text@),
            it.seq().len() == count,
            records@.len() == it.index(),
    {
        let record = match split_line(line) {
            Line::Data(data) => to_bits(data_record(data)),
            Line::Face(face) => to_bits(face_record::<S>(face)),
            Line::Blank => Record::Blank,
            Line::Malformed => Record::Malformed,
        };
        records.push(record);
    }
    records
}

/// The number of lines of a text: one more than it has line feeds.
pub open spec fn line_count(text: Seq<char>) -> nat {
    text.filter(|c: char| c == '\n').len() + 1
}

} // verus!
