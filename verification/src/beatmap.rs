//! Beatmap files: the interactable objects of one difficulty.
//!
//! See [`Beatmap`] to get started.  Each object kind is split into a
//! lightweight placement record and a separately indexed attributes record;
//! a placement's `metadata_index` points into the matching `*_data`
//! collection of the [`Beatmap`] (arcs and chains point into
//! [`Beatmap::color_notes_data`] for their head and tail attributes).  The
//! indices are carried, not checked.

use vstd::prelude::*;

use crate::fields::{
    f_beats, f_enum, f_i16, f_i8, f_string, f_u8, f_usize, jget, lemma_jget_at, sd_arr,
    sd_beats, sd_enum, sd_int, sd_string, sd_uint,
};
use crate::json::{pp_document, sp_document, vms, vs, Json, JsonV};
use crate::num::{dec_string, dec_text, int_string, int_text};
use crate::Beats;
use crate::Error;
use crate::ErrorKind;

verus! {

/// The horizontal column where an object should reside on the grid.
/// Wire values `0` to `3`, left to right.
#[derive(Debug, Clone, Copy, PartialEq, Eq, Structural)]
pub enum LineIndex {
    /// The leftmost column.
    FarLeft,
    /// The center-left column.
    Left,
    /// The center-right column.
    Right,
    /// The rightmost column.
    FarRight,
}

impl LineIndex {
    /// This variant's position in the declared order.
    pub open spec fn ordinal(self) -> u8 {
        match self {
            LineIndex::FarLeft => 0,
            LineIndex::Left => 1,
            LineIndex::Right => 2,
            LineIndex::FarRight => 3,
        }
    }

    /// Writes this variant as its ordinal, the wire encoding.
    pub fn to_wire(self) -> (r: u8)
        ensures
            r == self.ordinal(),
            line_index_of(r) == self,
    {
        match self {
            LineIndex::FarLeft => 0,
            LineIndex::Left => 1,
            LineIndex::Right => 2,
            LineIndex::FarRight => 3,
        }
    }

    /// Reads a variant back from its ordinal.  Succeeds exactly on the
    /// ordinals `0` to `3`; any other byte is refused, named in the error.
    pub fn from_wire(n: u8) -> (r: Result<LineIndex, Error>)
        ensures
            match r {
                Ok(v) => n < 4 && v == line_index_of(n),
                Err(e) => n >= 4 && e == Error::LineIndexTryFromU8(n),
            },
    {
        match n {
            0 => Ok(LineIndex::FarLeft),
            1 => Ok(LineIndex::Left),
            2 => Ok(LineIndex::Right),
            3 => Ok(LineIndex::FarRight),
            _ => Err(Error::LineIndexTryFromU8(n)),
        }
    }
}

/// The variant at ordinal `n` (the default variant past the last one).
pub open spec fn line_index_of(n: u8) -> LineIndex {
    if n == 0 {
        LineIndex::FarLeft
    } else if n == 1 {
        LineIndex::Left
    } else if n == 2 {
        LineIndex::Right
    } else if n == 3 {
        LineIndex::FarRight
    } else {
        LineIndex::FarLeft
    }
}

impl Default for LineIndex {
    /// The default variant: ordinal zero.
    fn default() -> (r: Self)
        ensures
            r == LineIndex::FarLeft,
    {
        LineIndex::FarLeft
    }
}

/// Reading back what was written gives the variant again: decoding the
/// ordinal that [`LineIndex::to_wire`] wrote yields the variant itself, and
/// every written ordinal lies in the valid range.
pub proof fn lemma_line_index_round_trip(v: LineIndex)
    ensures
        line_index_of(v.ordinal()) == v,
        v.ordinal() < 4,
{
}

/// How a `LineIndex`-valued field is decoded; absent means the default variant.
pub open spec fn sd_line_index_field(ms: Seq<(Seq<char>, JsonV)>, key: Seq<char>) -> Result<
    LineIndex,
    ErrorKind,
> {
    match sd_enum(ms, key, 4) {
        Ok(n) => Ok(line_index_of(n as u8)),
        Err(Some(n)) => Err(ErrorKind::LineIndex(n)),
        Err(None) => Err(ErrorKind::Decode),
    }
}

/// Reads a `LineIndex`-valued field; absent means the default variant.
fn f_line_index(ms: &Vec<(String, Json)>, key: &str) -> (r: Result<LineIndex, Error>)
    ensures
        match r {
            Ok(v) => sd_line_index_field(vms(ms@), key@) == Ok::<LineIndex, ErrorKind>(v),
            Err(e) => sd_line_index_field(vms(ms@), key@) == Err::<LineIndex, ErrorKind>(e.kind()),
        },
{
    match f_enum(ms, key, 4) {
        Ok(n) => match LineIndex::from_wire(n) {
            Ok(v) => Ok(v),
            Err(e) => Err(e),
        },
        Err(bad) => match bad {
            Some(n) => Err(Error::LineIndexTryFromU8(n)),
            None => Err(Error::Decode(String::from_str(key))),
        },
    }
}
/// The vertical row where an object should reside on the grid.
/// Wire values `0` to `2`, bottom to top.
#[derive(Debug, Clone, Copy, PartialEq, Eq, Structural)]
pub enum LineLayer {
    /// The bottom row.
    Bottom,
    /// The middle row.
    Middle,
    /// The top row.
    Top,
}

impl LineLayer {
    /// This variant's position in the declared order.
    pub open spec fn ordinal(self) -> u8 {
        match self {
            LineLayer::Bottom => 0,
            LineLayer::Middle => 1,
            LineLayer::Top => 2,
        }
    }

    /// Writes this variant as its ordinal, the wire encoding.
    pub fn to_wire(self) -> (r: u8)
        ensures
            r == self.ordinal(),
            line_layer_of(r) == self,
    {
        match self {
            LineLayer::Bottom => 0,
            LineLayer::Middle => 1,
            LineLayer::Top => 2,
        }
    }

    /// Reads a variant back from its ordinal.  Succeeds exactly on the
    /// ordinals `0` to `2`; any other byte is refused, named in the error.
    pub fn from_wire(n: u8) -> (r: Result<LineLayer, Error>)
        ensures
            match r {
                Ok(v) => n < 3 && v == line_layer_of(n),
                Err(e) => n >= 3 && e == Error::LineLayerTryFromU8(n),
            },
    {
        match n {
            0 => Ok(LineLayer::Bottom),
            1 => Ok(LineLayer::Middle),
            2 => Ok(LineLayer::Top),
            _ => Err(Error::LineLayerTryFromU8(n)),
        }
    }
}

/// The variant at ordinal `n` (the default variant past the last one).
pub open spec fn line_layer_of(n: u8) -> LineLayer {
    if n == 0 {
        LineLayer::Bottom
    } else if n == 1 {
        LineLayer::Middle
    } else if n == 2 {
        LineLayer::Top
    } else {
        LineLayer::Bottom
    }
}

impl Default for LineLayer {
    /// The default variant: ordinal zero.
    fn default() -> (r: Self)
        ensures
            r == LineLayer::Bottom,
    {
        LineLayer::Bottom
    }
}

/// Reading back what was written gives the variant again: decoding the
/// ordinal that [`LineLayer::to_wire`] wrote yields the variant itself, and
/// every written ordinal lies in the valid range.
pub proof fn lemma_line_layer_round_trip(v: LineLayer)
    ensures
        line_layer_of(v.ordinal()) == v,
        v.ordinal() < 3,
{
}

/// How a `LineLayer`-valued field is decoded; absent means the default variant.
pub open spec fn sd_line_layer_field(ms: Seq<(Seq<char>, JsonV)>, key: Seq<char>) -> Result<
    LineLayer,
    ErrorKind,
> {
    match sd_enum(ms, key, 3) {
        Ok(n) => Ok(line_layer_of(n as u8)),
        Err(Some(n)) => Err(ErrorKind::LineLayer(n)),
        Err(None) => Err(ErrorKind::Decode),
    }
}

/// Reads a `LineLayer`-valued field; absent means the default variant.
fn f_line_layer(ms: &Vec<(String, Json)>, key: &str) -> (r: Result<LineLayer, Error>)
    ensures
        match r {
            Ok(v) => sd_line_layer_field(vms(ms@), key@) == Ok::<LineLayer, ErrorKind>(v),
            Err(e) => sd_line_layer_field(vms(ms@), key@) == Err::<LineLayer, ErrorKind>(e.kind()),
        },
{
    match f_enum(ms, key, 3) {
        Ok(n) => match LineLayer::from_wire(n) {
            Ok(v) => Ok(v),
            Err(e) => Err(e),
        },
        Err(bad) => match bad {
            Some(n) => Err(Error::LineLayerTryFromU8(n)),
            None => Err(Error::Decode(String::from_str(key))),
        },
    }
}
/// Which saber should be able to successfully cut a note.
/// Wire value `0` or `1`.
#[derive(Debug, Clone, Copy, PartialEq, Eq, Structural)]
pub enum Color {
    /// The left saber.
    LeftSaber,
    /// The right saber.
    RightSaber,
}

impl Color {
    /// This variant's position in the declared order.
    pub open spec fn ordinal(self) -> u8 {
        match self {
            Color::LeftSaber => 0,
            Color::RightSaber => 1,
        }
    }

    /// Writes this variant as its ordinal, the wire encoding.
    pub fn to_wire(self) -> (r: u8)
        ensures
            r == self.ordinal(),
            color_of(r) == self,
    {
        match self {
            Color::LeftSaber => 0,
            Color::RightSaber => 1,
        }
    }

    /// Reads a variant back from its ordinal.  Succeeds exactly on the
    /// ordinals `0` to `1`; any other byte is refused, named in the error.
    pub fn from_wire(n: u8) -> (r: Result<Color, Error>)
        ensures
            match r {
                Ok(v) => n < 2 && v == color_of(n),
                Err(e) => n >= 2 && e == Error::ColorTryFromU8(n),
            },
    {
        match n {
            0 => Ok(Color::LeftSaber),
            1 => Ok(Color::RightSaber),
            _ => Err(Error::ColorTryFromU8(n)),
        }
    }
}

/// The variant at ordinal `n` (the default variant past the last one).
pub open spec fn color_of(n: u8) -> Color {
    if n == 0 {
        Color::LeftSaber
    } else if n == 1 {
        Color::RightSaber
    } else {
        Color::LeftSaber
    }
}

impl Default for Color {
    /// The default variant: ordinal zero.
    fn default() -> (r: Self)
        ensures
            r == Color::LeftSaber,
    {
        Color::LeftSaber
    }
}

/// Reading back what was written gives the variant again: decoding the
/// ordinal that [`Color::to_wire`] wrote yields the variant itself, and
/// every written ordinal lies in the valid range.
pub proof fn lemma_color_round_trip(v: Color)
    ensures
        color_of(v.ordinal()) == v,
        v.ordinal() < 2,
{
}

/// How a `Color`-valued field is decoded; absent means the default variant.
pub open spec fn sd_color_field(ms: Seq<(Seq<char>, JsonV)>, key: Seq<char>) -> Result<
    Color,
    ErrorKind,
> {
    match sd_enum(ms, key, 2) {
        Ok(n) => Ok(color_of(n as u8)),
        Err(Some(n)) => Err(ErrorKind::Color(n)),
        Err(None) => Err(ErrorKind::Decode),
    }
}

/// Reads a `Color`-valued field; absent means the default variant.
fn f_color(ms: &Vec<(String, Json)>, key: &str) -> (r: Result<Color, Error>)
    ensures
        match r {
            Ok(v) => sd_color_field(vms(ms@), key@) == Ok::<Color, ErrorKind>(v),
            Err(e) => sd_color_field(vms(ms@), key@) == Err::<Color, ErrorKind>(e.kind()),
        },
{
    match f_enum(ms, key, 2) {
        Ok(n) => match Color::from_wire(n) {
            Ok(v) => Ok(v),
            Err(e) => Err(e),
        },
        Err(bad) => match bad {
            Some(n) => Err(Error::ColorTryFromU8(n)),
            None => Err(Error::Decode(String::from_str(key))),
        },
    }
}
/// The direction the player should swing to successfully cut a note.
/// Wire values `0` to `8`; `8` means any direction.
#[derive(Debug, Clone, Copy, PartialEq, Eq, Structural)]
pub enum CutDirection {
    /// A swing upward.
    Up,
    /// A swing downward.
    Down,
    /// A swing to the left.
    Left,
    /// A swing to the right.
    Right,
    /// A swing up and to the left.
    UpLeft,
    /// A swing up and to the right.
    UpRight,
    /// A swing down and to the left.
    DownLeft,
    /// A swing down and to the right.
    DownRight,
    /// Any direction.
    Any,
}

impl CutDirection {
    /// This variant's position in the declared order.
    pub open spec fn ordinal(self) -> u8 {
        match self {
            CutDirection::Up => 0,
            CutDirection::Down => 1,
            CutDirection::Left => 2,
            CutDirection::Right => 3,
            CutDirection::UpLeft => 4,
            CutDirection::UpRight => 5,
            CutDirection::DownLeft => 6,
            CutDirection::DownRight => 7,
            CutDirection::Any => 8,
        }
    }

    /// Writes this variant as its ordinal, the wire encoding.
    pub fn to_wire(self) -> (r: u8)
        ensures
            r == self.ordinal(),
            cut_direction_of(r) == self,
    {
        match self {
            CutDirection::Up => 0,
            CutDirection::Down => 1,
            CutDirection::Left => 2,
            CutDirection::Right => 3,
            CutDirection::UpLeft => 4,
            CutDirection::UpRight => 5,
            CutDirection::DownLeft => 6,
            CutDirection::DownRight => 7,
            CutDirection::Any => 8,
        }
    }

    /// Reads a variant back from its ordinal.  Succeeds exactly on the
    /// ordinals `0` to `8`; any other byte is refused, named in the error.
    pub fn from_wire(n: u8) -> (r: Result<CutDirection, Error>)
        ensures
            match r {
                Ok(v) => n < 9 && v == cut_direction_of(n),
                Err(e) => n >= 9 && e == Error::CutDirectionTryFromU8(n),
            },
    {
        match n {
            0 => Ok(CutDirection::Up),
            1 => Ok(CutDirection::Down),
            2 => Ok(CutDirection::Left),
            3 => Ok(CutDirection::Right),
            4 => Ok(CutDirection::UpLeft),
            5 => Ok(CutDirection::UpRight),
            6 => Ok(CutDirection::DownLeft),
            7 => Ok(CutDirection::DownRight),
            8 => Ok(CutDirection::Any),
            _ => Err(Error::CutDirectionTryFromU8(n)),
        }
    }
}

/// The variant at ordinal `n` (the default variant past the last one).
pub open spec fn cut_direction_of(n: u8) -> CutDirection {
    if n == 0 {
        CutDirection::Up
    } else if n == 1 {
        CutDirection::Down
    } else if n == 2 {
        CutDirection::Left
    } else if n == 3 {
        CutDirection::Right
    } else if n == 4 {
        CutDirection::UpLeft
    } else if n == 5 {
        CutDirection::UpRight
    } else if n == 6 {
        CutDirection::DownLeft
    } else if n == 7 {
        CutDirection::DownRight
    } else if n == 8 {
        CutDirection::Any
    } else {
        CutDirection::Up
    }
}

impl Default for CutDirection {
    /// The default variant: ordinal zero.
    fn default() -> (r: Self)
        ensures
            r == CutDirection::Up,
    {
        CutDirection::Up
    }
}

/// Reading back what was written gives the variant again: decoding the
/// ordinal that [`CutDirection::to_wire`] wrote yields the variant itself, and
/// every written ordinal lies in the valid range.
pub proof fn lemma_cut_direction_round_trip(v: CutDirection)
    ensures
        cut_direction_of(v.ordinal()) == v,
        v.ordinal() < 9,
{
}

/// How a `CutDirection`-valued field is decoded; absent means the default variant.
pub open spec fn sd_cut_direction_field(ms: Seq<(Seq<char>, JsonV)>, key: Seq<char>) -> Result<
    CutDirection,
    ErrorKind,
> {
    match sd_enum(ms, key, 9) {
        Ok(n) => Ok(cut_direction_of(n as u8)),
        Err(Some(n)) => Err(ErrorKind::CutDirection(n)),
        Err(None) => Err(ErrorKind::Decode),
    }
}

/// Reads a `CutDirection`-valued field; absent means the default variant.
fn f_cut_direction(ms: &Vec<(String, Json)>, key: &str) -> (r: Result<CutDirection, Error>)
    ensures
        match r {
            Ok(v) => sd_cut_direction_field(vms(ms@), key@) == Ok::<CutDirection, ErrorKind>(v),
            Err(e) => sd_cut_direction_field(vms(ms@), key@) == Err::<CutDirection, ErrorKind>(e.kind()),
        },
{
    match f_enum(ms, key, 9) {
        Ok(n) => match CutDirection::from_wire(n) {
            Ok(v) => Ok(v),
            Err(e) => Err(e),
        },
        Err(bad) => match bad {
            Some(n) => Err(Error::CutDirectionTryFromU8(n)),
            None => Err(Error::Decode(String::from_str(key))),
        },
    }
}
/// How an [`Arc`] curves from its head/tail to its midpoint.
/// Wire values `0` to `2`.
#[derive(Debug, Clone, Copy, PartialEq, Eq, Structural)]
pub enum MidAnchorMode {
    /// No curve.
    Straight,
    /// A clockwise curve.
    Clockwise,
    /// A counter-clockwise curve.
    CounterClockwise,
}

impl MidAnchorMode {
    /// This variant's position in the declared order.
    pub open spec fn ordinal(self) -> u8 {
        match self {
            MidAnchorMode::Straight => 0,
            MidAnchorMode::Clockwise => 1,
            MidAnchorMode::CounterClockwise => 2,
        }
    }

    /// Writes this variant as its ordinal, the wire encoding.
    pub fn to_wire(self) -> (r: u8)
        ensures
            r == self.ordinal(),
            mid_anchor_mode_of(r) == self,
    {
        match self {
            MidAnchorMode::Straight => 0,
            MidAnchorMode::Clockwise => 1,
            MidAnchorMode::CounterClockwise => 2,
        }
    }

    /// Reads a variant back from its ordinal.  Succeeds exactly on the
    /// ordinals `0` to `2`; any other byte is refused, named in the error.
    pub fn from_wire(n: u8) -> (r: Result<MidAnchorMode, Error>)
        ensures
            match r {
                Ok(v) => n < 3 && v == mid_anchor_mode_of(n),
                Err(e) => n >= 3 && e == Error::MidAnchorModeTryFromU8(n),
            },
    {
        match n {
            0 => Ok(MidAnchorMode::Straight),
            1 => Ok(MidAnchorMode::Clockwise),
            2 => Ok(MidAnchorMode::CounterClockwise),
            _ => Err(Error::MidAnchorModeTryFromU8(n)),
        }
    }
}

/// The variant at ordinal `n` (the default variant past the last one).
pub open spec fn mid_anchor_mode_of(n: u8) -> MidAnchorMode {
    if n == 0 {
        MidAnchorMode::Straight
    } else if n == 1 {
        MidAnchorMode::Clockwise
    } else if n == 2 {
        MidAnchorMode::CounterClockwise
    } else {
        MidAnchorMode::Straight
    }
}

impl Default for MidAnchorMode {
    /// The default variant: ordinal zero.
    fn default() -> (r: Self)
        ensures
            r == MidAnchorMode::Straight,
    {
        MidAnchorMode::Straight
    }
}

/// Reading back what was written gives the variant again: decoding the
/// ordinal that [`MidAnchorMode::to_wire`] wrote yields the variant itself, and
/// every written ordinal lies in the valid range.
pub proof fn lemma_mid_anchor_mode_round_trip(v: MidAnchorMode)
    ensures
        mid_anchor_mode_of(v.ordinal()) == v,
        v.ordinal() < 3,
{
}

/// How a `MidAnchorMode`-valued field is decoded; absent means the default variant.
pub open spec fn sd_mid_anchor_mode_field(ms: Seq<(Seq<char>, JsonV)>, key: Seq<char>) -> Result<
    MidAnchorMode,
    ErrorKind,
> {
    match sd_enum(ms, key, 3) {
        Ok(n) => Ok(mid_anchor_mode_of(n as u8)),
        Err(Some(n)) => Err(ErrorKind::MidAnchorMode(n)),
        Err(None) => Err(ErrorKind::Decode),
    }
}

/// Reads a `MidAnchorMode`-valued field; absent means the default variant.
fn f_mid_anchor_mode(ms: &Vec<(String, Json)>, key: &str) -> (r: Result<MidAnchorMode, Error>)
    ensures
        match r {
            Ok(v) => sd_mid_anchor_mode_field(vms(ms@), key@) == Ok::<MidAnchorMode, ErrorKind>(v),
            Err(e) => sd_mid_anchor_mode_field(vms(ms@), key@) == Err::<MidAnchorMode, ErrorKind>(e.kind()),
        },
{
    match f_enum(ms, key, 3) {
        Ok(n) => match MidAnchorMode::from_wire(n) {
            Ok(v) => Ok(v),
            Err(e) => Err(e),
        },
        Err(bad) => match bad {
            Some(n) => Err(Error::MidAnchorModeTryFromU8(n)),
            None => Err(Error::Decode(String::from_str(key))),
        },
    }
}
/// When a [`SpawnRotation`] applies to objects placed on the same beat.
/// Wire value `0` or `1`.  Legacy: only the deprecated spawn-rotation
/// records use it.
#[derive(Debug, Clone, Copy, PartialEq, Eq, Structural)]
pub enum ExecutionTime {
    /// Applied before objects on the same beat.
    Early,
    /// Applied after objects on the same beat.
    Late,
}

impl ExecutionTime {
    /// This variant's position in the declared order.
    pub open spec fn ordinal(self) -> u8 {
        match self {
            ExecutionTime::Early => 0,
            ExecutionTime::Late => 1,
        }
    }

    /// Writes this variant as its ordinal, the wire encoding.
    pub fn to_wire(self) -> (r: u8)
        ensures
            r == self.ordinal(),
            execution_time_of(r) == self,
    {
        match self {
            ExecutionTime::Early => 0,
            ExecutionTime::Late => 1,
        }
    }

    /// Reads a variant back from its ordinal.  Succeeds exactly on the
    /// ordinals `0` to `1`; any other byte is refused, named in the error.
    pub fn from_wire(n: u8) -> (r: Result<ExecutionTime, Error>)
        ensures
            match r {
                Ok(v) => n < 2 && v == execution_time_of(n),
                Err(e) => n >= 2 && e == Error::ExecutionTimeTryFromU8(n),
            },
    {
        match n {
            0 => Ok(ExecutionTime::Early),
            1 => Ok(ExecutionTime::Late),
            _ => Err(Error::ExecutionTimeTryFromU8(n)),
        }
    }
}

/// The variant at ordinal `n` (the default variant past the last one).
pub open spec fn execution_time_of(n: u8) -> ExecutionTime {
    if n == 0 {
        ExecutionTime::Early
    } else if n == 1 {
        ExecutionTime::Late
    } else {
        ExecutionTime::Early
    }
}

impl Default for ExecutionTime {
    /// The default variant: ordinal zero.
    fn default() -> (r: Self)
        ensures
            r == ExecutionTime::Early,
    {
        ExecutionTime::Early
    }
}

/// Reading back what was written gives the variant again: decoding the
/// ordinal that [`ExecutionTime::to_wire`] wrote yields the variant itself, and
/// every written ordinal lies in the valid range.
pub proof fn lemma_execution_time_round_trip(v: ExecutionTime)
    ensures
        execution_time_of(v.ordinal()) == v,
        v.ordinal() < 2,
{
}

/// How a `ExecutionTime`-valued field is decoded; absent means the default variant.
pub open spec fn sd_execution_time_field(ms: Seq<(Seq<char>, JsonV)>, key: Seq<char>) -> Result<
    ExecutionTime,
    ErrorKind,
> {
    match sd_enum(ms, key, 2) {
        Ok(n) => Ok(execution_time_of(n as u8)),
        Err(Some(n)) => Err(ErrorKind::ExecutionTime(n)),
        Err(None) => Err(ErrorKind::Decode),
    }
}

/// Reads a `ExecutionTime`-valued field; absent means the default variant.
fn f_execution_time(ms: &Vec<(String, Json)>, key: &str) -> (r: Result<ExecutionTime, Error>)
    ensures
        match r {
            Ok(v) => sd_execution_time_field(vms(ms@), key@) == Ok::<ExecutionTime, ErrorKind>(v),
            Err(e) => sd_execution_time_field(vms(ms@), key@) == Err::<ExecutionTime, ErrorKind>(e.kind()),
        },
{
    match f_enum(ms, key, 2) {
        Ok(n) => match ExecutionTime::from_wire(n) {
            Ok(v) => Ok(v),
            Err(e) => Err(e),
        },
        Err(bad) => match bad {
            Some(n) => Err(Error::ExecutionTimeTryFromU8(n)),
            None => Err(Error::Decode(String::from_str(key))),
        },
    }
}
/// The grid position of an object or obstacle.
#[derive(Debug, Clone, PartialEq, Eq)]
pub struct GridPosition {
    /// See [`LineIndex`].  Wire key `x`.
    pub line_index: LineIndex,
    /// See [`LineLayer`].  Wire key `y`.
    pub line_layer: LineLayer,
}

/// The mathematical value of a [`GridPosition`].
pub struct GridPositionV {
    /// See [`GridPosition::line_index`].
    pub line_index: LineIndex,
    /// See [`GridPosition::line_layer`].
    pub line_layer: LineLayer,
}

impl View for GridPosition {
    type V = GridPositionV;

    open spec fn view(&self) -> GridPositionV {
        GridPositionV {
            line_index: self.line_index,
            line_layer: self.line_layer,
        }
    }
}

impl DeepView for GridPosition {
    type V = GridPositionV;

    open spec fn deep_view(&self) -> GridPositionV {
        self.view()
    }
}

/// How a grid position is decoded from the members of its wire object.
pub open spec fn sd_grid_position_ms(ms: Seq<(Seq<char>, JsonV)>) -> Result<GridPositionV, ErrorKind> {
    let r_line_index = sd_line_index_field(ms, "x"@);
    let r_line_layer = sd_line_layer_field(ms, "y"@);
    if r_line_index is Err {
        Err(r_line_index->Err_0)
    } else if r_line_layer is Err {
        Err(r_line_layer->Err_0)
    } else {
        Ok(
            GridPositionV {
                line_index: r_line_index->Ok_0,
                line_layer: r_line_layer->Ok_0,
            },
        )
    }
}

/// How a grid position is decoded from a wire value.
pub open spec fn sd_grid_position(v: JsonV) -> Result<GridPositionV, ErrorKind> {
    match v {
        JsonV::Obj(ms) => sd_grid_position_ms(ms),
        _ => Err(ErrorKind::Decode),
    }
}

/// The wire object of a grid position, keys in declaration order.
pub open spec fn js_grid_position(m: GridPositionV) -> JsonV {
    JsonV::Obj(
        seq![
            ("x"@, JsonV::Num(dec_text(m.line_index.ordinal() as nat))),
            ("y"@, JsonV::Num(dec_text(m.line_layer.ordinal() as nat))),
        ],
    )
}

impl GridPosition {
    /// Decodes one record from the members of its wire object.
    pub fn from_members(ms: &Vec<(String, Json)>) -> (r: Result<GridPosition, Error>)
        ensures
            match r {
                Ok(x) => sd_grid_position_ms(vms(ms@)) == Ok::<GridPositionV, ErrorKind>(x@),
                Err(e) => sd_grid_position_ms(vms(ms@)) == Err::<GridPositionV, ErrorKind>(e.kind()),
            },
    {
        let line_index = match f_line_index(ms, "x") {
            Ok(v) => v,
            Err(e) => return Err(e),
        };
        let line_layer = match f_line_layer(ms, "y") {
            Ok(v) => v,
            Err(e) => return Err(e),
        };
        Ok(GridPosition { line_index, line_layer })
    }

    /// Decodes one record from its wire value.
    pub fn from_json(j: &Json) -> (r: Result<GridPosition, Error>)
        ensures
            match r {
                Ok(x) => sd_grid_position(j.v()) == Ok::<GridPositionV, ErrorKind>(x@),
                Err(e) => sd_grid_position(j.v()) == Err::<GridPositionV, ErrorKind>(e.kind()),
            },
    {
        match j {
            Json::Obj(ms) => GridPosition::from_members(ms),
            _ => Err(Error::Decode(String::from_str("grid position"))),
        }
    }

    /// Encodes this record as its wire object.
    pub fn to_json(&self) -> (r: Json)
        ensures
            r.v() == js_grid_position(self@),
    {
        let mut ms: Vec<(String, Json)> = Vec::new();
        ms.push((String::from_str("x"), Json::Num(dec_string(self.line_index.to_wire() as u64))));
        ms.push((String::from_str("y"), Json::Num(dec_string(self.line_layer.to_wire() as u64))));
        let r = Json::Obj(ms);
        proof {
            assert(ms@[0].0@ == "x"@ && ms@[0].1.v() == JsonV::Num(dec_text(self@.line_index.ordinal() as nat)));
            assert(ms@[1].0@ == "y"@ && ms@[1].1.v() == JsonV::Num(dec_text(self@.line_layer.ordinal() as nat)));
            assert(r.v() matches JsonV::Obj(got) && (js_grid_position(self@) matches JsonV::Obj(
                want,
            ) && got =~~= want));
        }
        r
    }
}

/// How the records from `i` on of an array are decoded, after those already
/// read into `acc`.
pub open spec fn sd_grid_position_list(items: Seq<JsonV>, i: int, acc: Seq<GridPositionV>) -> Result<
    Seq<GridPositionV>,
    ErrorKind,
>
    decreases items.len() - i,
{
    if !(0 <= i < items.len()) {
        Ok(acc)
    } else {
        match sd_grid_position(items[i]) {
            Err(e) => Err(e),
            Ok(x) => sd_grid_position_list(items, i + 1, acc.push(x)),
        }
    }
}

/// How a whole array field of such records is decoded; absent means empty.
pub open spec fn sd_grid_position_list_field(ms: Seq<(Seq<char>, JsonV)>, key: Seq<char>) -> Result<
    Seq<GridPositionV>,
    ErrorKind,
> {
    match sd_arr(ms, key) {
        Err(e) => Err(e),
        Ok(items) => sd_grid_position_list(items, 0, Seq::empty()),
    }
}

/// The wire objects of a list of such records.
pub open spec fn js_grid_position_list(l: Seq<GridPositionV>) -> Seq<JsonV> {
    Seq::new(
        l.len(),
        |i: int|
            if 0 <= i < l.len() {
                js_grid_position(l[i])
            } else {
                JsonV::Null
            },
    )
}

/// Decodes a whole array of such records, failing on the first bad one.
fn grid_position_list_from(items: &Vec<Json>) -> (r: Result<Vec<GridPosition>, Error>)
    ensures
        match r {
            Ok(l) => sd_grid_position_list(vs(items@), 0, Seq::empty()) == Ok::<Seq<GridPositionV>, ErrorKind>(
                l.deep_view(),
            ),
            Err(e) => sd_grid_position_list(vs(items@), 0, Seq::empty()) == Err::<Seq<GridPositionV>, ErrorKind>(
                e.kind(),
            ),
        },
{
    let n = items.len();
    let mut acc: Vec<GridPosition> = Vec::new();
    let mut i: usize = 0;
    proof {
        assert(acc.deep_view() =~= Seq::<GridPositionV>::empty());
    }
    while i < n
        invariant
            i <= n == items@.len(),
            sd_grid_position_list(vs(items@), 0, Seq::empty()) == sd_grid_position_list(
                vs(items@),
                i as int,
                acc.deep_view(),
            ),
        decreases n - i,
    {
        let ghost prev = acc.deep_view();
        match GridPosition::from_json(&items[i]) {
            Ok(x) => {
                acc.push(x);
                proof {
                    assert(acc.deep_view() =~= prev.push(acc@[acc@.len() - 1]@));
                }
            },
            Err(e) => {
                return Err(e);
            },
        }
        i += 1;
    }
    Ok(acc)
}

/// Reads a whole array field of such records; absent means empty.
fn grid_position_list_field(ms: &Vec<(String, Json)>, key: &str) -> (r: Result<Vec<GridPosition>, Error>)
    ensures
        match r {
            Ok(l) => sd_grid_position_list_field(vms(ms@), key@) == Ok::<Seq<GridPositionV>, ErrorKind>(
                l.deep_view(),
            ),
            Err(e) => sd_grid_position_list_field(vms(ms@), key@) == Err::<Seq<GridPositionV>, ErrorKind>(e.kind()),
        },
{
    let empty_items: Vec<Json> = Vec::new();
    proof {
        assert(vs(empty_items@) =~= Seq::<JsonV>::empty());
    }
    match crate::fields::get_e(ms, key) {
        None => grid_position_list_from(&empty_items),
        Some(a) => match a {
            Json::Arr(items) => grid_position_list_from(items),
            _ => Err(Error::Decode(String::from_str(key))),
        },
    }
}

/// Encodes a whole list of such records.
fn grid_position_list_json(l: &Vec<GridPosition>) -> (r: Vec<Json>)
    ensures
        vs(r@) == js_grid_position_list(l.deep_view()),
{
    let n = l.len();
    let mut acc: Vec<Json> = Vec::new();
    let mut i: usize = 0;
    while i < n
        invariant
            i <= n == l@.len(),
            acc@.len() == i,
            forall|k: int| 0 <= k < i ==> #[trigger] acc@[k].v() == js_grid_position(l@[k]@),
        decreases n - i,
    {
        acc.push(l[i].to_json());
        i += 1;
    }
    proof {
        assert forall|k: int| 0 <= k < l@.len() implies #[trigger] vs(acc@)[k] == js_grid_position_list(
            l.deep_view(),
        )[k] by {
            assert(l.deep_view()[k] == l@[k]@);
            assert(acc@[k].v() == js_grid_position(l@[k]@));
        }
        assert(vs(acc@) =~= js_grid_position_list(l.deep_view()));
    }
    acc
}

/// The placement of an object.
#[derive(Debug, Clone, PartialEq)]
pub struct Object {
    /// The point in time, in beats, when this object should reach the player.  Wire key `b`.
    pub beat: Beats,
    /// The degree of rotation relative to the player that this object should spawn from.  Wire key `r`.
    pub rotation_lane: i16,
    /// The index of corresponding data in the matching `*_data` collection of the [`Beatmap`].  Wire key `i`.
    pub metadata_index: usize,
}

/// The mathematical value of a [`Object`].
pub struct ObjectV {
    /// See [`Object::beat`].
    pub beat: Seq<char>,
    /// See [`Object::rotation_lane`].
    pub rotation_lane: i16,
    /// See [`Object::metadata_index`].
    pub metadata_index: usize,
}

impl View for Object {
    type V = ObjectV;

    open spec fn view(&self) -> ObjectV {
        ObjectV {
            beat: self.beat@,
            rotation_lane: self.rotation_lane,
            metadata_index: self.metadata_index,
        }
    }
}

impl DeepView for Object {
    type V = ObjectV;

    open spec fn deep_view(&self) -> ObjectV {
        self.view()
    }
}

/// How a placement is decoded from the members of its wire object.
pub open spec fn sd_object_ms(ms: Seq<(Seq<char>, JsonV)>) -> Result<ObjectV, ErrorKind> {
    let r_beat = sd_beats(ms, "b"@);
    let r_rotation_lane = sd_int(ms, "r"@, i16::MIN as int, i16::MAX as int);
    let r_metadata_index = sd_uint(ms, "i"@, usize::MAX as nat);
    if r_beat is Err {
        Err(r_beat->Err_0)
    } else if r_rotation_lane is Err {
        Err(r_rotation_lane->Err_0)
    } else if r_metadata_index is Err {
        Err(r_metadata_index->Err_0)
    } else {
        Ok(
            ObjectV {
                beat: r_beat->Ok_0,
                rotation_lane: r_rotation_lane->Ok_0 as i16,
                metadata_index: r_metadata_index->Ok_0 as usize,
            },
        )
    }
}

/// How a placement is decoded from a wire value.
pub open spec fn sd_object(v: JsonV) -> Result<ObjectV, ErrorKind> {
    match v {
        JsonV::Obj(ms) => sd_object_ms(ms),
        _ => Err(ErrorKind::Decode),
    }
}

/// The wire object of a placement, keys in declaration order.
pub open spec fn js_object(m: ObjectV) -> JsonV {
    JsonV::Obj(
        seq![
            ("b"@, JsonV::Num(m.beat)),
            ("r"@, JsonV::Num(int_text(m.rotation_lane as int))),
            ("i"@, JsonV::Num(dec_text(m.metadata_index as nat))),
        ],
    )
}

impl Object {
    /// Decodes one record from the members of its wire object.
    pub fn from_members(ms: &Vec<(String, Json)>) -> (r: Result<Object, Error>)
        ensures
            match r {
                Ok(x) => sd_object_ms(vms(ms@)) == Ok::<ObjectV, ErrorKind>(x@),
                Err(e) => sd_object_ms(vms(ms@)) == Err::<ObjectV, ErrorKind>(e.kind()),
            },
    {
        let beat = match f_beats(ms, "b") {
            Ok(v) => v,
            Err(e) => return Err(e),
        };
        let rotation_lane = match f_i16(ms, "r") {
            Ok(v) => v,
            Err(e) => return Err(e),
        };
        let metadata_index = match f_usize(ms, "i") {
            Ok(v) => v,
            Err(e) => return Err(e),
        };
        Ok(Object { beat, rotation_lane, metadata_index })
    }

    /// Decodes one record from its wire value.
    pub fn from_json(j: &Json) -> (r: Result<Object, Error>)
        ensures
            match r {
                Ok(x) => sd_object(j.v()) == Ok::<ObjectV, ErrorKind>(x@),
                Err(e) => sd_object(j.v()) == Err::<ObjectV, ErrorKind>(e.kind()),
            },
    {
        match j {
            Json::Obj(ms) => Object::from_members(ms),
            _ => Err(Error::Decode(String::from_str("object"))),
        }
    }

    /// Encodes this record as its wire object.
    pub fn to_json(&self) -> (r: Json)
        ensures
            r.v() == js_object(self@),
    {
        let mut ms: Vec<(String, Json)> = Vec::new();
        ms.push((String::from_str("b"), Json::Num(self.beat.clone())));
        ms.push((String::from_str("r"), Json::Num(int_string(self.rotation_lane as i64))));
        ms.push((String::from_str("i"), Json::Num(dec_string(self.metadata_index as u64))));
        let r = Json::Obj(ms);
        proof {
            assert(ms@[0].0@ == "b"@ && ms@[0].1.v() == JsonV::Num(self@.beat));
            assert(ms@[1].0@ == "r"@ && ms@[1].1.v() == JsonV::Num(int_text(self@.rotation_lane as int)));
            assert(ms@[2].0@ == "i"@ && ms@[2].1.v() == JsonV::Num(dec_text(self@.metadata_index as nat)));
            assert(r.v() matches JsonV::Obj(got) && (js_object(self@) matches JsonV::Obj(
                want,
            ) && got =~~= want));
        }
        r
    }
}

/// How the records from `i` on of an array are decoded, after those already
/// read into `acc`.
pub open spec fn sd_object_list(items: Seq<JsonV>, i: int, acc: Seq<ObjectV>) -> Result<
    Seq<ObjectV>,
    ErrorKind,
>
    decreases items.len() - i,
{
    if !(0 <= i < items.len()) {
        Ok(acc)
    } else {
        match sd_object(items[i]) {
            Err(e) => Err(e),
            Ok(x) => sd_object_list(items, i + 1, acc.push(x)),
        }
    }
}

/// How a whole array field of such records is decoded; absent means empty.
pub open spec fn sd_object_list_field(ms: Seq<(Seq<char>, JsonV)>, key: Seq<char>) -> Result<
    Seq<ObjectV>,
    ErrorKind,
> {
    match sd_arr(ms, key) {
        Err(e) => Err(e),
        Ok(items) => sd_object_list(items, 0, Seq::empty()),
    }
}

/// The wire objects of a list of such records.
pub open spec fn js_object_list(l: Seq<ObjectV>) -> Seq<JsonV> {
    Seq::new(
        l.len(),
        |i: int|
            if 0 <= i < l.len() {
                js_object(l[i])
            } else {
                JsonV::Null
            },
    )
}

/// Decodes a whole array of such records, failing on the first bad one.
fn object_list_from(items: &Vec<Json>) -> (r: Result<Vec<Object>, Error>)
    ensures
        match r {
            Ok(l) => sd_object_list(vs(items@), 0, Seq::empty()) == Ok::<Seq<ObjectV>, ErrorKind>(
                l.deep_view(),
            ),
            Err(e) => sd_object_list(vs(items@), 0, Seq::empty()) == Err::<Seq<ObjectV>, ErrorKind>(
                e.kind(),
            ),
        },
{
    let n = items.len();
    let mut acc: Vec<Object> = Vec::new();
    let mut i: usize = 0;
    proof {
        assert(acc.deep_view() =~= Seq::<ObjectV>::empty());
    }
    while i < n
        invariant
            i <= n == items@.len(),
            sd_object_list(vs(items@), 0, Seq::empty()) == sd_object_list(
                vs(items@),
                i as int,
                acc.deep_view(),
            ),
        decreases n - i,
    {
        let ghost prev = acc.deep_view();
        match Object::from_json(&items[i]) {
            Ok(x) => {
                acc.push(x);
                proof {
                    assert(acc.deep_view() =~= prev.push(acc@[acc@.len() - 1]@));
                }
            },
            Err(e) => {
                return Err(e);
            },
        }
        i += 1;
    }
    Ok(acc)
}

/// Reads a whole array field of such records; absent means empty.
fn object_list_field(ms: &Vec<(String, Json)>, key: &str) -> (r: Result<Vec<Object>, Error>)
    ensures
        match r {
            Ok(l) => sd_object_list_field(vms(ms@), key@) == Ok::<Seq<ObjectV>, ErrorKind>(
                l.deep_view(),
            ),
            Err(e) => sd_object_list_field(vms(ms@), key@) == Err::<Seq<ObjectV>, ErrorKind>(e.kind()),
        },
{
    let empty_items: Vec<Json> = Vec::new();
    proof {
        assert(vs(empty_items@) =~= Seq::<JsonV>::empty());
    }
    match crate::fields::get_e(ms, key) {
        None => object_list_from(&empty_items),
        Some(a) => match a {
            Json::Arr(items) => object_list_from(items),
            _ => Err(Error::Decode(String::from_str(key))),
        },
    }
}

/// Encodes a whole list of such records.
fn object_list_json(l: &Vec<Object>) -> (r: Vec<Json>)
    ensures
        vs(r@) == js_object_list(l.deep_view()),
{
    let n = l.len();
    let mut acc: Vec<Json> = Vec::new();
    let mut i: usize = 0;
    while i < n
        invariant
            i <= n == l@.len(),
            acc@.len() == i,
            forall|k: int| 0 <= k < i ==> #[trigger] acc@[k].v() == js_object(l@[k]@),
        decreases n - i,
    {
        acc.push(l[i].to_json());
        i += 1;
    }
    proof {
        assert forall|k: int| 0 <= k < l@.len() implies #[trigger] vs(acc@)[k] == js_object_list(
            l.deep_view(),
        )[k] by {
            assert(l.deep_view()[k] == l@[k]@);
            assert(acc@[k].v() == js_object(l@[k]@));
        }
        assert(vs(acc@) =~= js_object_list(l.deep_view()));
    }
    acc
}

/// The attributes of a color note.
#[derive(Debug, Clone, PartialEq, Eq)]
pub struct ColorNoteData {
    /// See [`GridPosition`].  Wire key `x`/`y`.
    pub grid_position: GridPosition,
    /// See [`Color`].  Wire key `c`.
    pub color: Color,
    /// See [`CutDirection`].  Wire key `d`.
    pub cut_direction: CutDirection,
    /// A counter-clockwise rotational offset to the cut direction, in degrees.  Wire key `a`.
    pub angle_offset: i16,
}

/// The mathematical value of a [`ColorNoteData`].
pub struct ColorNoteDataV {
    /// See [`ColorNoteData::grid_position`].
    pub grid_position: GridPositionV,
    /// See [`ColorNoteData::color`].
    pub color: Color,
    /// See [`ColorNoteData::cut_direction`].
    pub cut_direction: CutDirection,
    /// See [`ColorNoteData::angle_offset`].
    pub angle_offset: i16,
}

impl View for ColorNoteData {
    type V = ColorNoteDataV;

    open spec fn view(&self) -> ColorNoteDataV {
        ColorNoteDataV {
            grid_position: self.grid_position@,
            color: self.color,
            cut_direction: self.cut_direction,
            angle_offset: self.angle_offset,
        }
    }
}

impl DeepView for ColorNoteData {
    type V = ColorNoteDataV;

    open spec fn deep_view(&self) -> ColorNoteDataV {
        self.view()
    }
}

/// How a color note's attributes is decoded from the members of its wire object.
pub open spec fn sd_color_note_data_ms(ms: Seq<(Seq<char>, JsonV)>) -> Result<ColorNoteDataV, ErrorKind> {
    let r_grid_position = sd_grid_position_ms(ms);
    let r_color = sd_color_field(ms, "c"@);
    let r_cut_direction = sd_cut_direction_field(ms, "d"@);
    let r_angle_offset = sd_int(ms, "a"@, i16::MIN as int, i16::MAX as int);
    if r_grid_position is Err {
        Err(r_grid_position->Err_0)
    } else if r_color is Err {
        Err(r_color->Err_0)
    } else if r_cut_direction is Err {
        Err(r_cut_direction->Err_0)
    } else if r_angle_offset is Err {
        Err(r_angle_offset->Err_0)
    } else {
        Ok(
            ColorNoteDataV {
                grid_position: r_grid_position->Ok_0,
                color: r_color->Ok_0,
                cut_direction: r_cut_direction->Ok_0,
                angle_offset: r_angle_offset->Ok_0 as i16,
            },
        )
    }
}

/// How a color note's attributes is decoded from a wire value.
pub open spec fn sd_color_note_data(v: JsonV) -> Result<ColorNoteDataV, ErrorKind> {
    match v {
        JsonV::Obj(ms) => sd_color_note_data_ms(ms),
        _ => Err(ErrorKind::Decode),
    }
}

/// The wire object of a color note's attributes, keys in declaration order.
pub open spec fn js_color_note_data(m: ColorNoteDataV) -> JsonV {
    JsonV::Obj(
        seq![
            ("x"@, JsonV::Num(dec_text(m.grid_position.line_index.ordinal() as nat))),
            ("y"@, JsonV::Num(dec_text(m.grid_position.line_layer.ordinal() as nat))),
            ("c"@, JsonV::Num(dec_text(m.color.ordinal() as nat))),
            ("d"@, JsonV::Num(dec_text(m.cut_direction.ordinal() as nat))),
            ("a"@, JsonV::Num(int_text(m.angle_offset as int))),
        ],
    )
}

impl ColorNoteData {
    /// Decodes one record from the members of its wire object.
    pub fn from_members(ms: &Vec<(String, Json)>) -> (r: Result<ColorNoteData, Error>)
        ensures
            match r {
                Ok(x) => sd_color_note_data_ms(vms(ms@)) == Ok::<ColorNoteDataV, ErrorKind>(x@),
                Err(e) => sd_color_note_data_ms(vms(ms@)) == Err::<ColorNoteDataV, ErrorKind>(e.kind()),
            },
    {
        let grid_position = match GridPosition::from_members(ms) {
            Ok(v) => v,
            Err(e) => return Err(e),
        };
        let color = match f_color(ms, "c") {
            Ok(v) => v,
            Err(e) => return Err(e),
        };
        let cut_direction = match f_cut_direction(ms, "d") {
            Ok(v) => v,
            Err(e) => return Err(e),
        };
        let angle_offset = match f_i16(ms, "a") {
            Ok(v) => v,
            Err(e) => return Err(e),
        };
        Ok(ColorNoteData { grid_position, color, cut_direction, angle_offset })
    }

    /// Decodes one record from its wire value.
    pub fn from_json(j: &Json) -> (r: Result<ColorNoteData, Error>)
        ensures
            match r {
                Ok(x) => sd_color_note_data(j.v()) == Ok::<ColorNoteDataV, ErrorKind>(x@),
                Err(e) => sd_color_note_data(j.v()) == Err::<ColorNoteDataV, ErrorKind>(e.kind()),
            },
    {
        match j {
            Json::Obj(ms) => ColorNoteData::from_members(ms),
            _ => Err(Error::Decode(String::from_str("color note data"))),
        }
    }

    /// Encodes this record as its wire object.
    pub fn to_json(&self) -> (r: Json)
        ensures
            r.v() == js_color_note_data(self@),
    {
        let mut ms: Vec<(String, Json)> = Vec::new();
        ms.push((String::from_str("x"), Json::Num(dec_string(self.grid_position.line_index.to_wire() as u64))));
        ms.push((String::from_str("y"), Json::Num(dec_string(self.grid_position.line_layer.to_wire() as u64))));
        ms.push((String::from_str("c"), Json::Num(dec_string(self.color.to_wire() as u64))));
        ms.push((String::from_str("d"), Json::Num(dec_string(self.cut_direction.to_wire() as u64))));
        ms.push((String::from_str("a"), Json::Num(int_string(self.angle_offset as i64))));
        let r = Json::Obj(ms);
        proof {
            assert(ms@[0].0@ == "x"@ && ms@[0].1.v() == JsonV::Num(dec_text(self@.grid_position.line_index.ordinal() as nat)));
            assert(ms@[1].0@ == "y"@ && ms@[1].1.v() == JsonV::Num(dec_text(self@.grid_position.line_layer.ordinal() as nat)));
            assert(ms@[2].0@ == "c"@ && ms@[2].1.v() == JsonV::Num(dec_text(self@.color.ordinal() as nat)));
            assert(ms@[3].0@ == "d"@ && ms@[3].1.v() == JsonV::Num(dec_text(self@.cut_direction.ordinal() as nat)));
            assert(ms@[4].0@ == "a"@ && ms@[4].1.v() == JsonV::Num(int_text(self@.angle_offset as int)));
            assert(r.v() matches JsonV::Obj(got) && (js_color_note_data(self@) matches JsonV::Obj(
                want,
            ) && got =~~= want));
        }
        r
    }
}

/// How the records from `i` on of an array are decoded, after those already
/// read into `acc`.
pub open spec fn sd_color_note_data_list(items: Seq<JsonV>, i: int, acc: Seq<ColorNoteDataV>) -> Result<
    Seq<ColorNoteDataV>,
    ErrorKind,
>
    decreases items.len() - i,
{
    if !(0 <= i < items.len()) {
        Ok(acc)
    } else {
        match sd_color_note_data(items[i]) {
            Err(e) => Err(e),
            Ok(x) => sd_color_note_data_list(items, i + 1, acc.push(x)),
        }
    }
}

/// How a whole array field of such records is decoded; absent means empty.
pub open spec fn sd_color_note_data_list_field(ms: Seq<(Seq<char>, JsonV)>, key: Seq<char>) -> Result<
    Seq<ColorNoteDataV>,
    ErrorKind,
> {
    match sd_arr(ms, key) {
        Err(e) => Err(e),
        Ok(items) => sd_color_note_data_list(items, 0, Seq::empty()),
    }
}

/// The wire objects of a list of such records.
pub open spec fn js_color_note_data_list(l: Seq<ColorNoteDataV>) -> Seq<JsonV> {
    Seq::new(
        l.len(),
        |i: int|
            if 0 <= i < l.len() {
                js_color_note_data(l[i])
            } else {
                JsonV::Null
            },
    )
}

/// Decodes a whole array of such records, failing on the first bad one.
fn color_note_data_list_from(items: &Vec<Json>) -> (r: Result<Vec<ColorNoteData>, Error>)
    ensures
        match r {
            Ok(l) => sd_color_note_data_list(vs(items@), 0, Seq::empty()) == Ok::<Seq<ColorNoteDataV>, ErrorKind>(
                l.deep_view(),
            ),
            Err(e) => sd_color_note_data_list(vs(items@), 0, Seq::empty()) == Err::<Seq<ColorNoteDataV>, ErrorKind>(
                e.kind(),
            ),
        },
{
    let n = items.len();
    let mut acc: Vec<ColorNoteData> = Vec::new();
    let mut i: usize = 0;
    proof {
        assert(acc.deep_view() =~= Seq::<ColorNoteDataV>::empty());
    }
    while i < n
        invariant
            i <= n == items@.len(),
            sd_color_note_data_list(vs(items@), 0, Seq::empty()) == sd_color_note_data_list(
                vs(items@),
                i as int,
                acc.deep_view(),
            ),
        decreases n - i,
    {
        let ghost prev = acc.deep_view();
        match ColorNoteData::from_json(&items[i]) {
            Ok(x) => {
                acc.push(x);
                proof {
                    assert(acc.deep_view() =~= prev.push(acc@[acc@.len() - 1]@));
                }
            },
            Err(e) => {
                return Err(e);
            },
        }
        i += 1;
    }
    Ok(acc)
}

/// Reads a whole array field of such records; absent means empty.
fn color_note_data_list_field(ms: &Vec<(String, Json)>, key: &str) -> (r: Result<Vec<ColorNoteData>, Error>)
    ensures
        match r {
            Ok(l) => sd_color_note_data_list_field(vms(ms@), key@) == Ok::<Seq<ColorNoteDataV>, ErrorKind>(
                l.deep_view(),
            ),
            Err(e) => sd_color_note_data_list_field(vms(ms@), key@) == Err::<Seq<ColorNoteDataV>, ErrorKind>(e.kind()),
        },
{
    let empty_items: Vec<Json> = Vec::new();
    proof {
        assert(vs(empty_items@) =~= Seq::<JsonV>::empty());
    }
    match crate::fields::get_e(ms, key) {
        None => color_note_data_list_from(&empty_items),
        Some(a) => match a {
            Json::Arr(items) => color_note_data_list_from(items),
            _ => Err(Error::Decode(String::from_str(key))),
        },
    }
}

/// Encodes a whole list of such records.
fn color_note_data_list_json(l: &Vec<ColorNoteData>) -> (r: Vec<Json>)
    ensures
        vs(r@) == js_color_note_data_list(l.deep_view()),
{
    let n = l.len();
    let mut acc: Vec<Json> = Vec::new();
    let mut i: usize = 0;
    while i < n
        invariant
            i <= n == l@.len(),
            acc@.len() == i,
            forall|k: int| 0 <= k < i ==> #[trigger] acc@[k].v() == js_color_note_data(l@[k]@),
        decreases n - i,
    {
        acc.push(l[i].to_json());
        i += 1;
    }
    proof {
        assert forall|k: int| 0 <= k < l@.len() implies #[trigger] vs(acc@)[k] == js_color_note_data_list(
            l.deep_view(),
        )[k] by {
            assert(l.deep_view()[k] == l@[k]@);
            assert(acc@[k].v() == js_color_note_data(l@[k]@));
        }
        assert(vs(acc@) =~= js_color_note_data_list(l.deep_view()));
    }
    acc
}

/// The attributes of an obstacle.
#[derive(Debug, Clone, PartialEq)]
pub struct ObstacleData {
    /// How long the obstacle extends for, in beats.  Wire key `d`.
    pub duration: Beats,
    /// See [`GridPosition`].  Wire key `x`/`y`.
    pub grid_position: GridPosition,
    /// How many columns the obstacle should take up on the grid.  Wire key `w`.
    pub width: i8,
    /// How many rows the obstacle should take up on the grid, from 1 to 5.  Wire key `h`.
    pub height: i8,
}

/// The mathematical value of a [`ObstacleData`].
pub struct ObstacleDataV {
    /// See [`ObstacleData::duration`].
    pub duration: Seq<char>,
    /// See [`ObstacleData::grid_position`].
    pub grid_position: GridPositionV,
    /// See [`ObstacleData::width`].
    pub width: i8,
    /// See [`ObstacleData::height`].
    pub height: i8,
}

impl View for ObstacleData {
    type V = ObstacleDataV;

    open spec fn view(&self) -> ObstacleDataV {
        ObstacleDataV {
            duration: self.duration@,
            grid_position: self.grid_position@,
            width: self.width,
            height: self.height,
        }
    }
}

impl DeepView for ObstacleData {
    type V = ObstacleDataV;

    open spec fn deep_view(&self) -> ObstacleDataV {
        self.view()
    }
}

/// How an obstacle's attributes is decoded from the members of its wire object.
pub open spec fn sd_obstacle_data_ms(ms: Seq<(Seq<char>, JsonV)>) -> Result<ObstacleDataV, ErrorKind> {
    let r_duration = sd_beats(ms, "d"@);
    let r_grid_position = sd_grid_position_ms(ms);
    let r_width = sd_int(ms, "w"@, i8::MIN as int, i8::MAX as int);
    let r_height = sd_int(ms, "h"@, i8::MIN as int, i8::MAX as int);
    if r_duration is Err {
        Err(r_duration->Err_0)
    } else if r_grid_position is Err {
        Err(r_grid_position->Err_0)
    } else if r_width is Err {
        Err(r_width->Err_0)
    } else if r_height is Err {
        Err(r_height->Err_0)
    } else {
        Ok(
            ObstacleDataV {
                duration: r_duration->Ok_0,
                grid_position: r_grid_position->Ok_0,
                width: r_width->Ok_0 as i8,
                height: r_height->Ok_0 as i8,
            },
        )
    }
}

/// How an obstacle's attributes is decoded from a wire value.
pub open spec fn sd_obstacle_data(v: JsonV) -> Result<ObstacleDataV, ErrorKind> {
    match v {
        JsonV::Obj(ms) => sd_obstacle_data_ms(ms),
        _ => Err(ErrorKind::Decode),
    }
}

/// The wire object of an obstacle's attributes, keys in declaration order.
pub open spec fn js_obstacle_data(m: ObstacleDataV) -> JsonV {
    JsonV::Obj(
        seq![
            ("d"@, JsonV::Num(m.duration)),
            ("x"@, JsonV::Num(dec_text(m.grid_position.line_index.ordinal() as nat))),
            ("y"@, JsonV::Num(dec_text(m.grid_position.line_layer.ordinal() as nat))),
            ("w"@, JsonV::Num(int_text(m.width as int))),
            ("h"@, JsonV::Num(int_text(m.height as int))),
        ],
    )
}

impl ObstacleData {
    /// Decodes one record from the members of its wire object.
    pub fn from_members(ms: &Vec<(String, Json)>) -> (r: Result<ObstacleData, Error>)
        ensures
            match r {
                Ok(x) => sd_obstacle_data_ms(vms(ms@)) == Ok::<ObstacleDataV, ErrorKind>(x@),
                Err(e) => sd_obstacle_data_ms(vms(ms@)) == Err::<ObstacleDataV, ErrorKind>(e.kind()),
            },
    {
        let duration = match f_beats(ms, "d") {
            Ok(v) => v,
            Err(e) => return Err(e),
        };
        let grid_position = match GridPosition::from_members(ms) {
            Ok(v) => v,
            Err(e) => return Err(e),
        };
        let width = match f_i8(ms, "w") {
            Ok(v) => v,
            Err(e) => return Err(e),
        };
        let height = match f_i8(ms, "h") {
            Ok(v) => v,
            Err(e) => return Err(e),
        };
        Ok(ObstacleData { duration, grid_position, width, height })
    }

    /// Decodes one record from its wire value.
    pub fn from_json(j: &Json) -> (r: Result<ObstacleData, Error>)
        ensures
            match r {
                Ok(x) => sd_obstacle_data(j.v()) == Ok::<ObstacleDataV, ErrorKind>(x@),
                Err(e) => sd_obstacle_data(j.v()) == Err::<ObstacleDataV, ErrorKind>(e.kind()),
            },
    {
        match j {
            Json::Obj(ms) => ObstacleData::from_members(ms),
            _ => Err(Error::Decode(String::from_str("obstacle data"))),
        }
    }

    /// Encodes this record as its wire object.
    pub fn to_json(&self) -> (r: Json)
        ensures
            r.v() == js_obstacle_data(self@),
    {
        let mut ms: Vec<(String, Json)> = Vec::new();
        ms.push((String::from_str("d"), Json::Num(self.duration.clone())));
        ms.push((String::from_str("x"), Json::Num(dec_string(self.grid_position.line_index.to_wire() as u64))));
        ms.push((String::from_str("y"), Json::Num(dec_string(self.grid_position.line_layer.to_wire() as u64))));
        ms.push((String::from_str("w"), Json::Num(int_string(self.width as i64))));
        ms.push((String::from_str("h"), Json::Num(int_string(self.height as i64))));
        let r = Json::Obj(ms);
        proof {
            assert(ms@[0].0@ == "d"@ && ms@[0].1.v() == JsonV::Num(self@.duration));
            assert(ms@[1].0@ == "x"@ && ms@[1].1.v() == JsonV::Num(dec_text(self@.grid_position.line_index.ordinal() as nat)));
            assert(ms@[2].0@ == "y"@ && ms@[2].1.v() == JsonV::Num(dec_text(self@.grid_position.line_layer.ordinal() as nat)));
            assert(ms@[3].0@ == "w"@ && ms@[3].1.v() == JsonV::Num(int_text(self@.width as int)));
            assert(ms@[4].0@ == "h"@ && ms@[4].1.v() == JsonV::Num(int_text(self@.height as int)));
            assert(r.v() matches JsonV::Obj(got) && (js_obstacle_data(self@) matches JsonV::Obj(
                want,
            ) && got =~~= want));
        }
        r
    }
}

/// How the records from `i` on of an array are decoded, after those already
/// read into `acc`.
pub open spec fn sd_obstacle_data_list(items: Seq<JsonV>, i: int, acc: Seq<ObstacleDataV>) -> Result<
    Seq<ObstacleDataV>,
    ErrorKind,
>
    decreases items.len() - i,
{
    if !(0 <= i < items.len()) {
        Ok(acc)
    } else {
        match sd_obstacle_data(items[i]) {
            Err(e) => Err(e),
            Ok(x) => sd_obstacle_data_list(items, i + 1, acc.push(x)),
        }
    }
}

/// How a whole array field of such records is decoded; absent means empty.
pub open spec fn sd_obstacle_data_list_field(ms: Seq<(Seq<char>, JsonV)>, key: Seq<char>) -> Result<
    Seq<ObstacleDataV>,
    ErrorKind,
> {
    match sd_arr(ms, key) {
        Err(e) => Err(e),
        Ok(items) => sd_obstacle_data_list(items, 0, Seq::empty()),
    }
}

/// The wire objects of a list of such records.
pub open spec fn js_obstacle_data_list(l: Seq<ObstacleDataV>) -> Seq<JsonV> {
    Seq::new(
        l.len(),
        |i: int|
            if 0 <= i < l.len() {
                js_obstacle_data(l[i])
            } else {
                JsonV::Null
            },
    )
}

/// Decodes a whole array of such records, failing on the first bad one.
fn obstacle_data_list_from(items: &Vec<Json>) -> (r: Result<Vec<ObstacleData>, Error>)
    ensures
        match r {
            Ok(l) => sd_obstacle_data_list(vs(items@), 0, Seq::empty()) == Ok::<Seq<ObstacleDataV>, ErrorKind>(
                l.deep_view(),
            ),
            Err(e) => sd_obstacle_data_list(vs(items@), 0, Seq::empty()) == Err::<Seq<ObstacleDataV>, ErrorKind>(
                e.kind(),
            ),
        },
{
    let n = items.len();
    let mut acc: Vec<ObstacleData> = Vec::new();
    let mut i: usize = 0;
    proof {
        assert(acc.deep_view() =~= Seq::<ObstacleDataV>::empty());
    }
    while i < n
        invariant
            i <= n == items@.len(),
            sd_obstacle_data_list(vs(items@), 0, Seq::empty()) == sd_obstacle_data_list(
                vs(items@),
                i as int,
                acc.deep_view(),
            ),
        decreases n - i,
    {
        let ghost prev = acc.deep_view();
        match ObstacleData::from_json(&items[i]) {
            Ok(x) => {
                acc.push(x);
                proof {
                    assert(acc.deep_view() =~= prev.push(acc@[acc@.len() - 1]@));
                }
            },
            Err(e) => {
                return Err(e);
            },
        }
        i += 1;
    }
    Ok(acc)
}

/// Reads a whole array field of such records; absent means empty.
fn obstacle_data_list_field(ms: &Vec<(String, Json)>, key: &str) -> (r: Result<Vec<ObstacleData>, Error>)
    ensures
        match r {
            Ok(l) => sd_obstacle_data_list_field(vms(ms@), key@) == Ok::<Seq<ObstacleDataV>, ErrorKind>(
                l.deep_view(),
            ),
            Err(e) => sd_obstacle_data_list_field(vms(ms@), key@) == Err::<Seq<ObstacleDataV>, ErrorKind>(e.kind()),
        },
{
    let empty_items: Vec<Json> = Vec::new();
    proof {
        assert(vs(empty_items@) =~= Seq::<JsonV>::empty());
    }
    match crate::fields::get_e(ms, key) {
        None => obstacle_data_list_from(&empty_items),
        Some(a) => match a {
            Json::Arr(items) => obstacle_data_list_from(items),
            _ => Err(Error::Decode(String::from_str(key))),
        },
    }
}

/// Encodes a whole list of such records.
fn obstacle_data_list_json(l: &Vec<ObstacleData>) -> (r: Vec<Json>)
    ensures
        vs(r@) == js_obstacle_data_list(l.deep_view()),
{
    let n = l.len();
    let mut acc: Vec<Json> = Vec::new();
    let mut i: usize = 0;
    while i < n
        invariant
            i <= n == l@.len(),
            acc@.len() == i,
            forall|k: int| 0 <= k < i ==> #[trigger] acc@[k].v() == js_obstacle_data(l@[k]@),
        decreases n - i,
    {
        acc.push(l[i].to_json());
        i += 1;
    }
    proof {
        assert forall|k: int| 0 <= k < l@.len() implies #[trigger] vs(acc@)[k] == js_obstacle_data_list(
            l.deep_view(),
        )[k] by {
            assert(l.deep_view()[k] == l@[k]@);
            assert(acc@[k].v() == js_obstacle_data(l@[k]@));
        }
        assert(vs(acc@) =~= js_obstacle_data_list(l.deep_view()));
    }
    acc
}

/// The placement of an arc.
#[derive(Debug, Clone, PartialEq)]
pub struct Arc {
    /// The point in time, in beats, when the head should reach the player.  Wire key `hb`.
    pub head_beat: Beats,
    /// The point in time, in beats, when the tail should reach the player.  Wire key `tb`.
    pub tail_beat: Beats,
    /// The rotation the head should spawn from.  Wire key `hr`.
    pub head_rotation_lane: i16,
    /// The rotation the tail should spawn from.  Wire key `tr`.
    pub tail_rotation_lane: i16,
    /// The index of the head data in [`Beatmap::color_notes_data`].  Wire key `hi`.
    pub head_metadata_index: usize,
    /// The index of the tail data in [`Beatmap::color_notes_data`].  Wire key `ti`.
    pub tail_metadata_index: usize,
    /// The index of the arc data in [`Beatmap::arcs_data`].  Wire key `ai`.
    pub arc_metadata_index: usize,
}

/// The mathematical value of a [`Arc`].
pub struct ArcV {
    /// See [`Arc::head_beat`].
    pub head_beat: Seq<char>,
    /// See [`Arc::tail_beat`].
    pub tail_beat: Seq<char>,
    /// See [`Arc::head_rotation_lane`].
    pub head_rotation_lane: i16,
    /// See [`Arc::tail_rotation_lane`].
    pub tail_rotation_lane: i16,
    /// See [`Arc::head_metadata_index`].
    pub head_metadata_index: usize,
    /// See [`Arc::tail_metadata_index`].
    pub tail_metadata_index: usize,
    /// See [`Arc::arc_metadata_index`].
    pub arc_metadata_index: usize,
}

impl View for Arc {
    type V = ArcV;

    open spec fn view(&self) -> ArcV {
        ArcV {
            head_beat: self.head_beat@,
            tail_beat: self.tail_beat@,
            head_rotation_lane: self.head_rotation_lane,
            tail_rotation_lane: self.tail_rotation_lane,
            head_metadata_index: self.head_metadata_index,
            tail_metadata_index: self.tail_metadata_index,
            arc_metadata_index: self.arc_metadata_index,
        }
    }
}

impl DeepView for Arc {
    type V = ArcV;

    open spec fn deep_view(&self) -> ArcV {
        self.view()
    }
}

/// How an arc placement is decoded from the members of its wire object.
pub open spec fn sd_arc_ms(ms: Seq<(Seq<char>, JsonV)>) -> Result<ArcV, ErrorKind> {
    let r_head_beat = sd_beats(ms, "hb"@);
    let r_tail_beat = sd_beats(ms, "tb"@);
    let r_head_rotation_lane = sd_int(ms, "hr"@, i16::MIN as int, i16::MAX as int);
    let r_tail_rotation_lane = sd_int(ms, "tr"@, i16::MIN as int, i16::MAX as int);
    let r_head_metadata_index = sd_uint(ms, "hi"@, usize::MAX as nat);
    let r_tail_metadata_index = sd_uint(ms, "ti"@, usize::MAX as nat);
    let r_arc_metadata_index = sd_uint(ms, "ai"@, usize::MAX as nat);
    if r_head_beat is Err {
        Err(r_head_beat->Err_0)
    } else if r_tail_beat is Err {
        Err(r_tail_beat->Err_0)
    } else if r_head_rotation_lane is Err {
        Err(r_head_rotation_lane->Err_0)
    } else if r_tail_rotation_lane is Err {
        Err(r_tail_rotation_lane->Err_0)
    } else if r_head_metadata_index is Err {
        Err(r_head_metadata_index->Err_0)
    } else if r_tail_metadata_index is Err {
        Err(r_tail_metadata_index->Err_0)
    } else if r_arc_metadata_index is Err {
        Err(r_arc_metadata_index->Err_0)
    } else {
        Ok(
            ArcV {
                head_beat: r_head_beat->Ok_0,
                tail_beat: r_tail_beat->Ok_0,
                head_rotation_lane: r_head_rotation_lane->Ok_0 as i16,
                tail_rotation_lane: r_tail_rotation_lane->Ok_0 as i16,
                head_metadata_index: r_head_metadata_index->Ok_0 as usize,
                tail_metadata_index: r_tail_metadata_index->Ok_0 as usize,
                arc_metadata_index: r_arc_metadata_index->Ok_0 as usize,
            },
        )
    }
}

/// How an arc placement is decoded from a wire value.
pub open spec fn sd_arc(v: JsonV) -> Result<ArcV, ErrorKind> {
    match v {
        JsonV::Obj(ms) => sd_arc_ms(ms),
        _ => Err(ErrorKind::Decode),
    }
}

/// The wire object of an arc placement, keys in declaration order.
pub open spec fn js_arc(m: ArcV) -> JsonV {
    JsonV::Obj(
        seq![
            ("hb"@, JsonV::Num(m.head_beat)),
            ("tb"@, JsonV::Num(m.tail_beat)),
            ("hr"@, JsonV::Num(int_text(m.head_rotation_lane as int))),
            ("tr"@, JsonV::Num(int_text(m.tail_rotation_lane as int))),
            ("hi"@, JsonV::Num(dec_text(m.head_metadata_index as nat))),
            ("ti"@, JsonV::Num(dec_text(m.tail_metadata_index as nat))),
            ("ai"@, JsonV::Num(dec_text(m.arc_metadata_index as nat))),
        ],
    )
}

impl Arc {
    /// Decodes one record from the members of its wire object.
    pub fn from_members(ms: &Vec<(String, Json)>) -> (r: Result<Arc, Error>)
        ensures
            match r {
                Ok(x) => sd_arc_ms(vms(ms@)) == Ok::<ArcV, ErrorKind>(x@),
                Err(e) => sd_arc_ms(vms(ms@)) == Err::<ArcV, ErrorKind>(e.kind()),
            },
    {
        let head_beat = match f_beats(ms, "hb") {
            Ok(v) => v,
            Err(e) => return Err(e),
        };
        let tail_beat = match f_beats(ms, "tb") {
            Ok(v) => v,
            Err(e) => return Err(e),
        };
        let head_rotation_lane = match f_i16(ms, "hr") {
            Ok(v) => v,
            Err(e) => return Err(e),
        };
        let tail_rotation_lane = match f_i16(ms, "tr") {
            Ok(v) => v,
            Err(e) => return Err(e),
        };
        let head_metadata_index = match f_usize(ms, "hi") {
            Ok(v) => v,
            Err(e) => return Err(e),
        };
        let tail_metadata_index = match f_usize(ms, "ti") {
            Ok(v) => v,
            Err(e) => return Err(e),
        };
        let arc_metadata_index = match f_usize(ms, "ai") {
            Ok(v) => v,
            Err(e) => return Err(e),
        };
        Ok(Arc { head_beat, tail_beat, head_rotation_lane, tail_rotation_lane, head_metadata_index, tail_metadata_index, arc_metadata_index })
    }

    /// Decodes one record from its wire value.
    pub fn from_json(j: &Json) -> (r: Result<Arc, Error>)
        ensures
            match r {
                Ok(x) => sd_arc(j.v()) == Ok::<ArcV, ErrorKind>(x@),
                Err(e) => sd_arc(j.v()) == Err::<ArcV, ErrorKind>(e.kind()),
            },
    {
        match j {
            Json::Obj(ms) => Arc::from_members(ms),
            _ => Err(Error::Decode(String::from_str("arc"))),
        }
    }

    /// Encodes this record as its wire object.
    pub fn to_json(&self) -> (r: Json)
        ensures
            r.v() == js_arc(self@),
    {
        let mut ms: Vec<(String, Json)> = Vec::new();
        ms.push((String::from_str("hb"), Json::Num(self.head_beat.clone())));
        ms.push((String::from_str("tb"), Json::Num(self.tail_beat.clone())));
        ms.push((String::from_str("hr"), Json::Num(int_string(self.head_rotation_lane as i64))));
        ms.push((String::from_str("tr"), Json::Num(int_string(self.tail_rotation_lane as i64))));
        ms.push((String::from_str("hi"), Json::Num(dec_string(self.head_metadata_index as u64))));
        ms.push((String::from_str("ti"), Json::Num(dec_string(self.tail_metadata_index as u64))));
        ms.push((String::from_str("ai"), Json::Num(dec_string(self.arc_metadata_index as u64))));
        let r = Json::Obj(ms);
        proof {
            assert(ms@[0].0@ == "hb"@ && ms@[0].1.v() == JsonV::Num(self@.head_beat));
            assert(ms@[1].0@ == "tb"@ && ms@[1].1.v() == JsonV::Num(self@.tail_beat));
            assert(ms@[2].0@ == "hr"@ && ms@[2].1.v() == JsonV::Num(int_text(self@.head_rotation_lane as int)));
            assert(ms@[3].0@ == "tr"@ && ms@[3].1.v() == JsonV::Num(int_text(self@.tail_rotation_lane as int)));
            assert(ms@[4].0@ == "hi"@ && ms@[4].1.v() == JsonV::Num(dec_text(self@.head_metadata_index as nat)));
            assert(ms@[5].0@ == "ti"@ && ms@[5].1.v() == JsonV::Num(dec_text(self@.tail_metadata_index as nat)));
            assert(ms@[6].0@ == "ai"@ && ms@[6].1.v() == JsonV::Num(dec_text(self@.arc_metadata_index as nat)));
            assert(r.v() matches JsonV::Obj(got) && (js_arc(self@) matches JsonV::Obj(
                want,
            ) && got =~~= want));
        }
        r
    }
}

/// How the records from `i` on of an array are decoded, after those already
/// read into `acc`.
pub open spec fn sd_arc_list(items: Seq<JsonV>, i: int, acc: Seq<ArcV>) -> Result<
    Seq<ArcV>,
    ErrorKind,
>
    decreases items.len() - i,
{
    if !(0 <= i < items.len()) {
        Ok(acc)
    } else {
        match sd_arc(items[i]) {
            Err(e) => Err(e),
            Ok(x) => sd_arc_list(items, i + 1, acc.push(x)),
        }
    }
}

/// How a whole array field of such records is decoded; absent means empty.
pub open spec fn sd_arc_list_field(ms: Seq<(Seq<char>, JsonV)>, key: Seq<char>) -> Result<
    Seq<ArcV>,
    ErrorKind,
> {
    match sd_arr(ms, key) {
        Err(e) => Err(e),
        Ok(items) => sd_arc_list(items, 0, Seq::empty()),
    }
}

/// The wire objects of a list of such records.
pub open spec fn js_arc_list(l: Seq<ArcV>) -> Seq<JsonV> {
    Seq::new(
        l.len(),
        |i: int|
            if 0 <= i < l.len() {
                js_arc(l[i])
            } else {
                JsonV::Null
            },
    )
}

/// Decodes a whole array of such records, failing on the first bad one.
fn arc_list_from(items: &Vec<Json>) -> (r: Result<Vec<Arc>, Error>)
    ensures
        match r {
            Ok(l) => sd_arc_list(vs(items@), 0, Seq::empty()) == Ok::<Seq<ArcV>, ErrorKind>(
                l.deep_view(),
            ),
            Err(e) => sd_arc_list(vs(items@), 0, Seq::empty()) == Err::<Seq<ArcV>, ErrorKind>(
                e.kind(),
            ),
        },
{
    let n = items.len();
    let mut acc: Vec<Arc> = Vec::new();
    let mut i: usize = 0;
    proof {
        assert(acc.deep_view() =~= Seq::<ArcV>::empty());
    }
    while i < n
        invariant
            i <= n == items@.len(),
            sd_arc_list(vs(items@), 0, Seq::empty()) == sd_arc_list(
                vs(items@),
                i as int,
                acc.deep_view(),
            ),
        decreases n - i,
    {
        let ghost prev = acc.deep_view();
        match Arc::from_json(&items[i]) {
            Ok(x) => {
                acc.push(x);
                proof {
                    assert(acc.deep_view() =~= prev.push(acc@[acc@.len() - 1]@));
                }
            },
            Err(e) => {
                return Err(e);
            },
        }
        i += 1;
    }
    Ok(acc)
}

/// Reads a whole array field of such records; absent means empty.
fn arc_list_field(ms: &Vec<(String, Json)>, key: &str) -> (r: Result<Vec<Arc>, Error>)
    ensures
        match r {
            Ok(l) => sd_arc_list_field(vms(ms@), key@) == Ok::<Seq<ArcV>, ErrorKind>(
                l.deep_view(),
            ),
            Err(e) => sd_arc_list_field(vms(ms@), key@) == Err::<Seq<ArcV>, ErrorKind>(e.kind()),
        },
{
    let empty_items: Vec<Json> = Vec::new();
    proof {
        assert(vs(empty_items@) =~= Seq::<JsonV>::empty());
    }
    match crate::fields::get_e(ms, key) {
        None => arc_list_from(&empty_items),
        Some(a) => match a {
            Json::Arr(items) => arc_list_from(items),
            _ => Err(Error::Decode(String::from_str(key))),
        },
    }
}

/// Encodes a whole list of such records.
fn arc_list_json(l: &Vec<Arc>) -> (r: Vec<Json>)
    ensures
        vs(r@) == js_arc_list(l.deep_view()),
{
    let n = l.len();
    let mut acc: Vec<Json> = Vec::new();
    let mut i: usize = 0;
    while i < n
        invariant
            i <= n == l@.len(),
            acc@.len() == i,
            forall|k: int| 0 <= k < i ==> #[trigger] acc@[k].v() == js_arc(l@[k]@),
        decreases n - i,
    {
        acc.push(l[i].to_json());
        i += 1;
    }
    proof {
        assert forall|k: int| 0 <= k < l@.len() implies #[trigger] vs(acc@)[k] == js_arc_list(
            l.deep_view(),
        )[k] by {
            assert(l.deep_view()[k] == l@[k]@);
            assert(acc@[k].v() == js_arc(l@[k]@));
        }
        assert(vs(acc@) =~= js_arc_list(l.deep_view()));
    }
    acc
}

/// The attributes of an [`Arc`].
#[derive(Debug, Clone, PartialEq)]
pub struct ArcData {
    /// The magnitude of the curve approaching the head, kept as written.  Wire key `m`.
    pub head_multiplier: Beats,
    /// The magnitude of the curve approaching the tail, kept as written.  Wire key `tm`.
    pub tail_multiplier: Beats,
    /// See [`MidAnchorMode`].  Wire key `a`.
    pub mid_anchor_mode: MidAnchorMode,
}

/// The mathematical value of a [`ArcData`].
pub struct ArcDataV {
    /// See [`ArcData::head_multiplier`].
    pub head_multiplier: Seq<char>,
    /// See [`ArcData::tail_multiplier`].
    pub tail_multiplier: Seq<char>,
    /// See [`ArcData::mid_anchor_mode`].
    pub mid_anchor_mode: MidAnchorMode,
}

impl View for ArcData {
    type V = ArcDataV;

    open spec fn view(&self) -> ArcDataV {
        ArcDataV {
            head_multiplier: self.head_multiplier@,
            tail_multiplier: self.tail_multiplier@,
            mid_anchor_mode: self.mid_anchor_mode,
        }
    }
}

impl DeepView for ArcData {
    type V = ArcDataV;

    open spec fn deep_view(&self) -> ArcDataV {
        self.view()
    }
}

/// How an arc's attributes is decoded from the members of its wire object.
pub open spec fn sd_arc_data_ms(ms: Seq<(Seq<char>, JsonV)>) -> Result<ArcDataV, ErrorKind> {
    let r_head_multiplier = sd_beats(ms, "m"@);
    let r_tail_multiplier = sd_beats(ms, "tm"@);
    let r_mid_anchor_mode = sd_mid_anchor_mode_field(ms, "a"@);
    if r_head_multiplier is Err {
        Err(r_head_multiplier->Err_0)
    } else if r_tail_multiplier is Err {
        Err(r_tail_multiplier->Err_0)
    } else if r_mid_anchor_mode is Err {
        Err(r_mid_anchor_mode->Err_0)
    } else {
        Ok(
            ArcDataV {
                head_multiplier: r_head_multiplier->Ok_0,
                tail_multiplier: r_tail_multiplier->Ok_0,
                mid_anchor_mode: r_mid_anchor_mode->Ok_0,
            },
        )
    }
}

/// How an arc's attributes is decoded from a wire value.
pub open spec fn sd_arc_data(v: JsonV) -> Result<ArcDataV, ErrorKind> {
    match v {
        JsonV::Obj(ms) => sd_arc_data_ms(ms),
        _ => Err(ErrorKind::Decode),
    }
}

/// The wire object of an arc's attributes, keys in declaration order.
pub open spec fn js_arc_data(m: ArcDataV) -> JsonV {
    JsonV::Obj(
        seq![
            ("m"@, JsonV::Num(m.head_multiplier)),
            ("tm"@, JsonV::Num(m.tail_multiplier)),
            ("a"@, JsonV::Num(dec_text(m.mid_anchor_mode.ordinal() as nat))),
        ],
    )
}

impl ArcData {
    /// Decodes one record from the members of its wire object.
    pub fn from_members(ms: &Vec<(String, Json)>) -> (r: Result<ArcData, Error>)
        ensures
            match r {
                Ok(x) => sd_arc_data_ms(vms(ms@)) == Ok::<ArcDataV, ErrorKind>(x@),
                Err(e) => sd_arc_data_ms(vms(ms@)) == Err::<ArcDataV, ErrorKind>(e.kind()),
            },
    {
        let head_multiplier = match f_beats(ms, "m") {
            Ok(v) => v,
            Err(e) => return Err(e),
        };
        let tail_multiplier = match f_beats(ms, "tm") {
            Ok(v) => v,
            Err(e) => return Err(e),
        };
        let mid_anchor_mode = match f_mid_anchor_mode(ms, "a") {
            Ok(v) => v,
            Err(e) => return Err(e),
        };
        Ok(ArcData { head_multiplier, tail_multiplier, mid_anchor_mode })
    }

    /// Decodes one record from its wire value.
    pub fn from_json(j: &Json) -> (r: Result<ArcData, Error>)
        ensures
            match r {
                Ok(x) => sd_arc_data(j.v()) == Ok::<ArcDataV, ErrorKind>(x@),
                Err(e) => sd_arc_data(j.v()) == Err::<ArcDataV, ErrorKind>(e.kind()),
            },
    {
        match j {
            Json::Obj(ms) => ArcData::from_members(ms),
            _ => Err(Error::Decode(String::from_str("arc data"))),
        }
    }

    /// Encodes this record as its wire object.
    pub fn to_json(&self) -> (r: Json)
        ensures
            r.v() == js_arc_data(self@),
    {
        let mut ms: Vec<(String, Json)> = Vec::new();
        ms.push((String::from_str("m"), Json::Num(self.head_multiplier.clone())));
        ms.push((String::from_str("tm"), Json::Num(self.tail_multiplier.clone())));
        ms.push((String::from_str("a"), Json::Num(dec_string(self.mid_anchor_mode.to_wire() as u64))));
        let r = Json::Obj(ms);
        proof {
            assert(ms@[0].0@ == "m"@ && ms@[0].1.v() == JsonV::Num(self@.head_multiplier));
            assert(ms@[1].0@ == "tm"@ && ms@[1].1.v() == JsonV::Num(self@.tail_multiplier));
            assert(ms@[2].0@ == "a"@ && ms@[2].1.v() == JsonV::Num(dec_text(self@.mid_anchor_mode.ordinal() as nat)));
            assert(r.v() matches JsonV::Obj(got) && (js_arc_data(self@) matches JsonV::Obj(
                want,
            ) && got =~~= want));
        }
        r
    }
}

/// How the records from `i` on of an array are decoded, after those already
/// read into `acc`.
pub open spec fn sd_arc_data_list(items: Seq<JsonV>, i: int, acc: Seq<ArcDataV>) -> Result<
    Seq<ArcDataV>,
    ErrorKind,
>
    decreases items.len() - i,
{
    if !(0 <= i < items.len()) {
        Ok(acc)
    } else {
        match sd_arc_data(items[i]) {
            Err(e) => Err(e),
            Ok(x) => sd_arc_data_list(items, i + 1, acc.push(x)),
        }
    }
}

/// How a whole array field of such records is decoded; absent means empty.
pub open spec fn sd_arc_data_list_field(ms: Seq<(Seq<char>, JsonV)>, key: Seq<char>) -> Result<
    Seq<ArcDataV>,
    ErrorKind,
> {
    match sd_arr(ms, key) {
        Err(e) => Err(e),
        Ok(items) => sd_arc_data_list(items, 0, Seq::empty()),
    }
}

/// The wire objects of a list of such records.
pub open spec fn js_arc_data_list(l: Seq<ArcDataV>) -> Seq<JsonV> {
    Seq::new(
        l.len(),
        |i: int|
            if 0 <= i < l.len() {
                js_arc_data(l[i])
            } else {
                JsonV::Null
            },
    )
}

/// Decodes a whole array of such records, failing on the first bad one.
fn arc_data_list_from(items: &Vec<Json>) -> (r: Result<Vec<ArcData>, Error>)
    ensures
        match r {
            Ok(l) => sd_arc_data_list(vs(items@), 0, Seq::empty()) == Ok::<Seq<ArcDataV>, ErrorKind>(
                l.deep_view(),
            ),
            Err(e) => sd_arc_data_list(vs(items@), 0, Seq::empty()) == Err::<Seq<ArcDataV>, ErrorKind>(
                e.kind(),
            ),
        },
{
    let n = items.len();
    let mut acc: Vec<ArcData> = Vec::new();
    let mut i: usize = 0;
    proof {
        assert(acc.deep_view() =~= Seq::<ArcDataV>::empty());
    }
    while i < n
        invariant
            i <= n == items@.len(),
            sd_arc_data_list(vs(items@), 0, Seq::empty()) == sd_arc_data_list(
                vs(items@),
                i as int,
                acc.deep_view(),
            ),
        decreases n - i,
    {
        let ghost prev = acc.deep_view();
        match ArcData::from_json(&items[i]) {
            Ok(x) => {
                acc.push(x);
                proof {
                    assert(acc.deep_view() =~= prev.push(acc@[acc@.len() - 1]@));
                }
            },
            Err(e) => {
                return Err(e);
            },
        }
        i += 1;
    }
    Ok(acc)
}

/// Reads a whole array field of such records; absent means empty.
fn arc_data_list_field(ms: &Vec<(String, Json)>, key: &str) -> (r: Result<Vec<ArcData>, Error>)
    ensures
        match r {
            Ok(l) => sd_arc_data_list_field(vms(ms@), key@) == Ok::<Seq<ArcDataV>, ErrorKind>(
                l.deep_view(),
            ),
            Err(e) => sd_arc_data_list_field(vms(ms@), key@) == Err::<Seq<ArcDataV>, ErrorKind>(e.kind()),
        },
{
    let empty_items: Vec<Json> = Vec::new();
    proof {
        assert(vs(empty_items@) =~= Seq::<JsonV>::empty());
    }
    match crate::fields::get_e(ms, key) {
        None => arc_data_list_from(&empty_items),
        Some(a) => match a {
            Json::Arr(items) => arc_data_list_from(items),
            _ => Err(Error::Decode(String::from_str(key))),
        },
    }
}

/// Encodes a whole list of such records.
fn arc_data_list_json(l: &Vec<ArcData>) -> (r: Vec<Json>)
    ensures
        vs(r@) == js_arc_data_list(l.deep_view()),
{
    let n = l.len();
    let mut acc: Vec<Json> = Vec::new();
    let mut i: usize = 0;
    while i < n
        invariant
            i <= n == l@.len(),
            acc@.len() == i,
            forall|k: int| 0 <= k < i ==> #[trigger] acc@[k].v() == js_arc_data(l@[k]@),
        decreases n - i,
    {
        acc.push(l[i].to_json());
        i += 1;
    }
    proof {
        assert forall|k: int| 0 <= k < l@.len() implies #[trigger] vs(acc@)[k] == js_arc_data_list(
            l.deep_view(),
        )[k] by {
            assert(l.deep_view()[k] == l@[k]@);
            assert(acc@[k].v() == js_arc_data(l@[k]@));
        }
        assert(vs(acc@) =~= js_arc_data_list(l.deep_view()));
    }
    acc
}

/// The placement of a chain.
#[derive(Debug, Clone, PartialEq)]
pub struct Chain {
    /// The point in time, in beats, when the head should reach the player.  Wire key `hb`.
    pub head_beat: Beats,
    /// The point in time, in beats, when the tail should reach the player.  Wire key `tb`.
    pub tail_beat: Beats,
    /// The rotation the head should spawn from.  Wire key `hr`.
    pub head_rotation_lane: i16,
    /// The rotation the tail should spawn from.  Wire key `tr`.
    pub tail_rotation_lane: i16,
    /// The index of the head data in [`Beatmap::color_notes_data`].  Wire key `i`.
    pub head_metadata_index: usize,
    /// The index of the chain data in [`Beatmap::chains_data`].  Wire key `ci`.
    pub chain_metadata_index: usize,
}

/// The mathematical value of a [`Chain`].
pub struct ChainV {
    /// See [`Chain::head_beat`].
    pub head_beat: Seq<char>,
    /// See [`Chain::tail_beat`].
    pub tail_beat: Seq<char>,
    /// See [`Chain::head_rotation_lane`].
    pub head_rotation_lane: i16,
    /// See [`Chain::tail_rotation_lane`].
    pub tail_rotation_lane: i16,
    /// See [`Chain::head_metadata_index`].
    pub head_metadata_index: usize,
    /// See [`Chain::chain_metadata_index`].
    pub chain_metadata_index: usize,
}

impl View for Chain {
    type V = ChainV;

    open spec fn view(&self) -> ChainV {
        ChainV {
            head_beat: self.head_beat@,
            tail_beat: self.tail_beat@,
            head_rotation_lane: self.head_rotation_lane,
            tail_rotation_lane: self.tail_rotation_lane,
            head_metadata_index: self.head_metadata_index,
            chain_metadata_index: self.chain_metadata_index,
        }
    }
}

impl DeepView for Chain {
    type V = ChainV;

    open spec fn deep_view(&self) -> ChainV {
        self.view()
    }
}

/// How a chain placement is decoded from the members of its wire object.
pub open spec fn sd_chain_ms(ms: Seq<(Seq<char>, JsonV)>) -> Result<ChainV, ErrorKind> {
    let r_head_beat = sd_beats(ms, "hb"@);
    let r_tail_beat = sd_beats(ms, "tb"@);
    let r_head_rotation_lane = sd_int(ms, "hr"@, i16::MIN as int, i16::MAX as int);
    let r_tail_rotation_lane = sd_int(ms, "tr"@, i16::MIN as int, i16::MAX as int);
    let r_head_metadata_index = sd_uint(ms, "i"@, usize::MAX as nat);
    let r_chain_metadata_index = sd_uint(ms, "ci"@, usize::MAX as nat);
    if r_head_beat is Err {
        Err(r_head_beat->Err_0)
    } else if r_tail_beat is Err {
        Err(r_tail_beat->Err_0)
    } else if r_head_rotation_lane is Err {
        Err(r_head_rotation_lane->Err_0)
    } else if r_tail_rotation_lane is Err {
        Err(r_tail_rotation_lane->Err_0)
    } else if r_head_metadata_index is Err {
        Err(r_head_metadata_index->Err_0)
    } else if r_chain_metadata_index is Err {
        Err(r_chain_metadata_index->Err_0)
    } else {
        Ok(
            ChainV {
                head_beat: r_head_beat->Ok_0,
                tail_beat: r_tail_beat->Ok_0,
                head_rotation_lane: r_head_rotation_lane->Ok_0 as i16,
                tail_rotation_lane: r_tail_rotation_lane->Ok_0 as i16,
                head_metadata_index: r_head_metadata_index->Ok_0 as usize,
                chain_metadata_index: r_chain_metadata_index->Ok_0 as usize,
            },
        )
    }
}

/// How a chain placement is decoded from a wire value.
pub open spec fn sd_chain(v: JsonV) -> Result<ChainV, ErrorKind> {
    match v {
        JsonV::Obj(ms) => sd_chain_ms(ms),
        _ => Err(ErrorKind::Decode),
    }
}

/// The wire object of a chain placement, keys in declaration order.
pub open spec fn js_chain(m: ChainV) -> JsonV {
    JsonV::Obj(
        seq![
            ("hb"@, JsonV::Num(m.head_beat)),
            ("tb"@, JsonV::Num(m.tail_beat)),
            ("hr"@, JsonV::Num(int_text(m.head_rotation_lane as int))),
            ("tr"@, JsonV::Num(int_text(m.tail_rotation_lane as int))),
            ("i"@, JsonV::Num(dec_text(m.head_metadata_index as nat))),
            ("ci"@, JsonV::Num(dec_text(m.chain_metadata_index as nat))),
        ],
    )
}

impl Chain {
    /// Decodes one record from the members of its wire object.
    pub fn from_members(ms: &Vec<(String, Json)>) -> (r: Result<Chain, Error>)
        ensures
            match r {
                Ok(x) => sd_chain_ms(vms(ms@)) == Ok::<ChainV, ErrorKind>(x@),
                Err(e) => sd_chain_ms(vms(ms@)) == Err::<ChainV, ErrorKind>(e.kind()),
            },
    {
        let head_beat = match f_beats(ms, "hb") {
            Ok(v) => v,
            Err(e) => return Err(e),
        };
        let tail_beat = match f_beats(ms, "tb") {
            Ok(v) => v,
            Err(e) => return Err(e),
        };
        let head_rotation_lane = match f_i16(ms, "hr") {
            Ok(v) => v,
            Err(e) => return Err(e),
        };
        let tail_rotation_lane = match f_i16(ms, "tr") {
            Ok(v) => v,
            Err(e) => return Err(e),
        };
        let head_metadata_index = match f_usize(ms, "i") {
            Ok(v) => v,
            Err(e) => return Err(e),
        };
        let chain_metadata_index = match f_usize(ms, "ci") {
            Ok(v) => v,
            Err(e) => return Err(e),
        };
        Ok(Chain { head_beat, tail_beat, head_rotation_lane, tail_rotation_lane, head_metadata_index, chain_metadata_index })
    }

    /// Decodes one record from its wire value.
    pub fn from_json(j: &Json) -> (r: Result<Chain, Error>)
        ensures
            match r {
                Ok(x) => sd_chain(j.v()) == Ok::<ChainV, ErrorKind>(x@),
                Err(e) => sd_chain(j.v()) == Err::<ChainV, ErrorKind>(e.kind()),
            },
    {
        match j {
            Json::Obj(ms) => Chain::from_members(ms),
            _ => Err(Error::Decode(String::from_str("chain"))),
        }
    }

    /// Encodes this record as its wire object.
    pub fn to_json(&self) -> (r: Json)
        ensures
            r.v() == js_chain(self@),
    {
        let mut ms: Vec<(String, Json)> = Vec::new();
        ms.push((String::from_str("hb"), Json::Num(self.head_beat.clone())));
        ms.push((String::from_str("tb"), Json::Num(self.tail_beat.clone())));
        ms.push((String::from_str("hr"), Json::Num(int_string(self.head_rotation_lane as i64))));
        ms.push((String::from_str("tr"), Json::Num(int_string(self.tail_rotation_lane as i64))));
        ms.push((String::from_str("i"), Json::Num(dec_string(self.head_metadata_index as u64))));
        ms.push((String::from_str("ci"), Json::Num(dec_string(self.chain_metadata_index as u64))));
        let r = Json::Obj(ms);
        proof {
            assert(ms@[0].0@ == "hb"@ && ms@[0].1.v() == JsonV::Num(self@.head_beat));
            assert(ms@[1].0@ == "tb"@ && ms@[1].1.v() == JsonV::Num(self@.tail_beat));
            assert(ms@[2].0@ == "hr"@ && ms@[2].1.v() == JsonV::Num(int_text(self@.head_rotation_lane as int)));
            assert(ms@[3].0@ == "tr"@ && ms@[3].1.v() == JsonV::Num(int_text(self@.tail_rotation_lane as int)));
            assert(ms@[4].0@ == "i"@ && ms@[4].1.v() == JsonV::Num(dec_text(self@.head_metadata_index as nat)));
            assert(ms@[5].0@ == "ci"@ && ms@[5].1.v() == JsonV::Num(dec_text(self@.chain_metadata_index as nat)));
            assert(r.v() matches JsonV::Obj(got) && (js_chain(self@) matches JsonV::Obj(
                want,
            ) && got =~~= want));
        }
        r
    }
}

/// How the records from `i` on of an array are decoded, after those already
/// read into `acc`.
pub open spec fn sd_chain_list(items: Seq<JsonV>, i: int, acc: Seq<ChainV>) -> Result<
    Seq<ChainV>,
    ErrorKind,
>
    decreases items.len() - i,
{
    if !(0 <= i < items.len()) {
        Ok(acc)
    } else {
        match sd_chain(items[i]) {
            Err(e) => Err(e),
            Ok(x) => sd_chain_list(items, i + 1, acc.push(x)),
        }
    }
}

/// How a whole array field of such records is decoded; absent means empty.
pub open spec fn sd_chain_list_field(ms: Seq<(Seq<char>, JsonV)>, key: Seq<char>) -> Result<
    Seq<ChainV>,
    ErrorKind,
> {
    match sd_arr(ms, key) {
        Err(e) => Err(e),
        Ok(items) => sd_chain_list(items, 0, Seq::empty()),
    }
}

/// The wire objects of a list of such records.
pub open spec fn js_chain_list(l: Seq<ChainV>) -> Seq<JsonV> {
    Seq::new(
        l.len(),
        |i: int|
            if 0 <= i < l.len() {
                js_chain(l[i])
            } else {
                JsonV::Null
            },
    )
}

/// Decodes a whole array of such records, failing on the first bad one.
fn chain_list_from(items: &Vec<Json>) -> (r: Result<Vec<Chain>, Error>)
    ensures
        match r {
            Ok(l) => sd_chain_list(vs(items@), 0, Seq::empty()) == Ok::<Seq<ChainV>, ErrorKind>(
                l.deep_view(),
            ),
            Err(e) => sd_chain_list(vs(items@), 0, Seq::empty()) == Err::<Seq<ChainV>, ErrorKind>(
                e.kind(),
            ),
        },
{
    let n = items.len();
    let mut acc: Vec<Chain> = Vec::new();
    let mut i: usize = 0;
    proof {
        assert(acc.deep_view() =~= Seq::<ChainV>::empty());
    }
    while i < n
        invariant
            i <= n == items@.len(),
            sd_chain_list(vs(items@), 0, Seq::empty()) == sd_chain_list(
                vs(items@),
                i as int,
                acc.deep_view(),
            ),
        decreases n - i,
    {
        let ghost prev = acc.deep_view();
        match Chain::from_json(&items[i]) {
            Ok(x) => {
                acc.push(x);
                proof {
                    assert(acc.deep_view() =~= prev.push(acc@[acc@.len() - 1]@));
                }
            },
            Err(e) => {
                return Err(e);
            },
        }
        i += 1;
    }
    Ok(acc)
}

/// Reads a whole array field of such records; absent means empty.
fn chain_list_field(ms: &Vec<(String, Json)>, key: &str) -> (r: Result<Vec<Chain>, Error>)
    ensures
        match r {
            Ok(l) => sd_chain_list_field(vms(ms@), key@) == Ok::<Seq<ChainV>, ErrorKind>(
                l.deep_view(),
            ),
            Err(e) => sd_chain_list_field(vms(ms@), key@) == Err::<Seq<ChainV>, ErrorKind>(e.kind()),
        },
{
    let empty_items: Vec<Json> = Vec::new();
    proof {
        assert(vs(empty_items@) =~= Seq::<JsonV>::empty());
    }
    match crate::fields::get_e(ms, key) {
        None => chain_list_from(&empty_items),
        Some(a) => match a {
            Json::Arr(items) => chain_list_from(items),
            _ => Err(Error::Decode(String::from_str(key))),
        },
    }
}

/// Encodes a whole list of such records.
fn chain_list_json(l: &Vec<Chain>) -> (r: Vec<Json>)
    ensures
        vs(r@) == js_chain_list(l.deep_view()),
{
    let n = l.len();
    let mut acc: Vec<Json> = Vec::new();
    let mut i: usize = 0;
    while i < n
        invariant
            i <= n == l@.len(),
            acc@.len() == i,
            forall|k: int| 0 <= k < i ==> #[trigger] acc@[k].v() == js_chain(l@[k]@),
        decreases n - i,
    {
        acc.push(l[i].to_json());
        i += 1;
    }
    proof {
        assert forall|k: int| 0 <= k < l@.len() implies #[trigger] vs(acc@)[k] == js_chain_list(
            l.deep_view(),
        )[k] by {
            assert(l.deep_view()[k] == l@[k]@);
            assert(acc@[k].v() == js_chain(l@[k]@));
        }
        assert(vs(acc@) =~= js_chain_list(l.deep_view()));
    }
    acc
}

/// The attributes of a [`Chain`].
#[derive(Debug, Clone, PartialEq)]
pub struct ChainData {
    /// The tail's column; see [`LineIndex`].  Wire key `tx`.
    pub tail_line_index: LineIndex,
    /// The tail's row; see [`LineLayer`].  Wire key `ty`.
    pub tail_line_layer: LineLayer,
    /// The number of segments in the chain; the head counts as one.  Wire key `c`.
    pub slice_count: u8,
    /// The proportion of the path the chain uses, kept as written.  Wire key `s`.
    pub squish_factor: Beats,
}

/// The mathematical value of a [`ChainData`].
pub struct ChainDataV {
    /// See [`ChainData::tail_line_index`].
    pub tail_line_index: LineIndex,
    /// See [`ChainData::tail_line_layer`].
    pub tail_line_layer: LineLayer,
    /// See [`ChainData::slice_count`].
    pub slice_count: u8,
    /// See [`ChainData::squish_factor`].
    pub squish_factor: Seq<char>,
}

impl View for ChainData {
    type V = ChainDataV;

    open spec fn view(&self) -> ChainDataV {
        ChainDataV {
            tail_line_index: self.tail_line_index,
            tail_line_layer: self.tail_line_layer,
            slice_count: self.slice_count,
            squish_factor: self.squish_factor@,
        }
    }
}

impl DeepView for ChainData {
    type V = ChainDataV;

    open spec fn deep_view(&self) -> ChainDataV {
        self.view()
    }
}

/// How a chain's attributes is decoded from the members of its wire object.
pub open spec fn sd_chain_data_ms(ms: Seq<(Seq<char>, JsonV)>) -> Result<ChainDataV, ErrorKind> {
    let r_tail_line_index = sd_line_index_field(ms, "tx"@);
    let r_tail_line_layer = sd_line_layer_field(ms, "ty"@);
    let r_slice_count = sd_uint(ms, "c"@, 255);
    let r_squish_factor = sd_beats(ms, "s"@);
    if r_tail_line_index is Err {
        Err(r_tail_line_index->Err_0)
    } else if r_tail_line_layer is Err {
        Err(r_tail_line_layer->Err_0)
    } else if r_slice_count is Err {
        Err(r_slice_count->Err_0)
    } else if r_squish_factor is Err {
        Err(r_squish_factor->Err_0)
    } else {
        Ok(
            ChainDataV {
                tail_line_index: r_tail_line_index->Ok_0,
                tail_line_layer: r_tail_line_layer->Ok_0,
                slice_count: r_slice_count->Ok_0 as u8,
                squish_factor: r_squish_factor->Ok_0,
            },
        )
    }
}

/// How a chain's attributes is decoded from a wire value.
pub open spec fn sd_chain_data(v: JsonV) -> Result<ChainDataV, ErrorKind> {
    match v {
        JsonV::Obj(ms) => sd_chain_data_ms(ms),
        _ => Err(ErrorKind::Decode),
    }
}

/// The wire object of a chain's attributes, keys in declaration order.
pub open spec fn js_chain_data(m: ChainDataV) -> JsonV {
    JsonV::Obj(
        seq![
            ("tx"@, JsonV::Num(dec_text(m.tail_line_index.ordinal() as nat))),
            ("ty"@, JsonV::Num(dec_text(m.tail_line_layer.ordinal() as nat))),
            ("c"@, JsonV::Num(dec_text(m.slice_count as nat))),
            ("s"@, JsonV::Num(m.squish_factor)),
        ],
    )
}

impl ChainData {
    /// Decodes one record from the members of its wire object.
    pub fn from_members(ms: &Vec<(String, Json)>) -> (r: Result<ChainData, Error>)
        ensures
            match r {
                Ok(x) => sd_chain_data_ms(vms(ms@)) == Ok::<ChainDataV, ErrorKind>(x@),
                Err(e) => sd_chain_data_ms(vms(ms@)) == Err::<ChainDataV, ErrorKind>(e.kind()),
            },
    {
        let tail_line_index = match f_line_index(ms, "tx") {
            Ok(v) => v,
            Err(e) => return Err(e),
        };
        let tail_line_layer = match f_line_layer(ms, "ty") {
            Ok(v) => v,
            Err(e) => return Err(e),
        };
        let slice_count = match f_u8(ms, "c") {
            Ok(v) => v,
            Err(e) => return Err(e),
        };
        let squish_factor = match f_beats(ms, "s") {
            Ok(v) => v,
            Err(e) => return Err(e),
        };
        Ok(ChainData { tail_line_index, tail_line_layer, slice_count, squish_factor })
    }

    /// Decodes one record from its wire value.
    pub fn from_json(j: &Json) -> (r: Result<ChainData, Error>)
        ensures
            match r {
                Ok(x) => sd_chain_data(j.v()) == Ok::<ChainDataV, ErrorKind>(x@),
                Err(e) => sd_chain_data(j.v()) == Err::<ChainDataV, ErrorKind>(e.kind()),
            },
    {
        match j {
            Json::Obj(ms) => ChainData::from_members(ms),
            _ => Err(Error::Decode(String::from_str("chain data"))),
        }
    }

    /// Encodes this record as its wire object.
    pub fn to_json(&self) -> (r: Json)
        ensures
            r.v() == js_chain_data(self@),
    {
        let mut ms: Vec<(String, Json)> = Vec::new();
        ms.push((String::from_str("tx"), Json::Num(dec_string(self.tail_line_index.to_wire() as u64))));
        ms.push((String::from_str("ty"), Json::Num(dec_string(self.tail_line_layer.to_wire() as u64))));
        ms.push((String::from_str("c"), Json::Num(dec_string(self.slice_count as u64))));
        ms.push((String::from_str("s"), Json::Num(self.squish_factor.clone())));
        let r = Json::Obj(ms);
        proof {
            assert(ms@[0].0@ == "tx"@ && ms@[0].1.v() == JsonV::Num(dec_text(self@.tail_line_index.ordinal() as nat)));
            assert(ms@[1].0@ == "ty"@ && ms@[1].1.v() == JsonV::Num(dec_text(self@.tail_line_layer.ordinal() as nat)));
            assert(ms@[2].0@ == "c"@ && ms@[2].1.v() == JsonV::Num(dec_text(self@.slice_count as nat)));
            assert(ms@[3].0@ == "s"@ && ms@[3].1.v() == JsonV::Num(self@.squish_factor));
            assert(r.v() matches JsonV::Obj(got) && (js_chain_data(self@) matches JsonV::Obj(
                want,
            ) && got =~~= want));
        }
        r
    }
}

/// How the records from `i` on of an array are decoded, after those already
/// read into `acc`.
pub open spec fn sd_chain_data_list(items: Seq<JsonV>, i: int, acc: Seq<ChainDataV>) -> Result<
    Seq<ChainDataV>,
    ErrorKind,
>
    decreases items.len() - i,
{
    if !(0 <= i < items.len()) {
        Ok(acc)
    } else {
        match sd_chain_data(items[i]) {
            Err(e) => Err(e),
            Ok(x) => sd_chain_data_list(items, i + 1, acc.push(x)),
        }
    }
}

/// How a whole array field of such records is decoded; absent means empty.
pub open spec fn sd_chain_data_list_field(ms: Seq<(Seq<char>, JsonV)>, key: Seq<char>) -> Result<
    Seq<ChainDataV>,
    ErrorKind,
> {
    match sd_arr(ms, key) {
        Err(e) => Err(e),
        Ok(items) => sd_chain_data_list(items, 0, Seq::empty()),
    }
}

/// The wire objects of a list of such records.
pub open spec fn js_chain_data_list(l: Seq<ChainDataV>) -> Seq<JsonV> {
    Seq::new(
        l.len(),
        |i: int|
            if 0 <= i < l.len() {
                js_chain_data(l[i])
            } else {
                JsonV::Null
            },
    )
}

/// Decodes a whole array of such records, failing on the first bad one.
fn chain_data_list_from(items: &Vec<Json>) -> (r: Result<Vec<ChainData>, Error>)
    ensures
        match r {
            Ok(l) => sd_chain_data_list(vs(items@), 0, Seq::empty()) == Ok::<Seq<ChainDataV>, ErrorKind>(
                l.deep_view(),
            ),
            Err(e) => sd_chain_data_list(vs(items@), 0, Seq::empty()) == Err::<Seq<ChainDataV>, ErrorKind>(
                e.kind(),
            ),
        },
{
    let n = items.len();
    let mut acc: Vec<ChainData> = Vec::new();
    let mut i: usize = 0;
    proof {
        assert(acc.deep_view() =~= Seq::<ChainDataV>::empty());
    }
    while i < n
        invariant
            i <= n == items@.len(),
            sd_chain_data_list(vs(items@), 0, Seq::empty()) == sd_chain_data_list(
                vs(items@),
                i as int,
                acc.deep_view(),
            ),
        decreases n - i,
    {
        let ghost prev = acc.deep_view();
        match ChainData::from_json(&items[i]) {
            Ok(x) => {
                acc.push(x);
                proof {
                    assert(acc.deep_view() =~= prev.push(acc@[acc@.len() - 1]@));
                }
            },
            Err(e) => {
                return Err(e);
            },
        }
        i += 1;
    }
    Ok(acc)
}

/// Reads a whole array field of such records; absent means empty.
fn chain_data_list_field(ms: &Vec<(String, Json)>, key: &str) -> (r: Result<Vec<ChainData>, Error>)
    ensures
        match r {
            Ok(l) => sd_chain_data_list_field(vms(ms@), key@) == Ok::<Seq<ChainDataV>, ErrorKind>(
                l.deep_view(),
            ),
            Err(e) => sd_chain_data_list_field(vms(ms@), key@) == Err::<Seq<ChainDataV>, ErrorKind>(e.kind()),
        },
{
    let empty_items: Vec<Json> = Vec::new();
    proof {
        assert(vs(empty_items@) =~= Seq::<JsonV>::empty());
    }
    match crate::fields::get_e(ms, key) {
        None => chain_data_list_from(&empty_items),
        Some(a) => match a {
            Json::Arr(items) => chain_data_list_from(items),
            _ => Err(Error::Decode(String::from_str(key))),
        },
    }
}

/// Encodes a whole list of such records.
fn chain_data_list_json(l: &Vec<ChainData>) -> (r: Vec<Json>)
    ensures
        vs(r@) == js_chain_data_list(l.deep_view()),
{
    let n = l.len();
    let mut acc: Vec<Json> = Vec::new();
    let mut i: usize = 0;
    while i < n
        invariant
            i <= n == l@.len(),
            acc@.len() == i,
            forall|k: int| 0 <= k < i ==> #[trigger] acc@[k].v() == js_chain_data(l@[k]@),
        decreases n - i,
    {
        acc.push(l[i].to_json());
        i += 1;
    }
    proof {
        assert forall|k: int| 0 <= k < l@.len() implies #[trigger] vs(acc@)[k] == js_chain_data_list(
            l.deep_view(),
        )[k] by {
            assert(l.deep_view()[k] == l@[k]@);
            assert(acc@[k].v() == js_chain_data(l@[k]@));
        }
        assert(vs(acc@) =~= js_chain_data_list(l.deep_view()));
    }
    acc
}

/// The placement of a spawn rotation.  Legacy: use
/// [`Object::rotation_lane`] instead; kept for wire compatibility.
#[derive(Debug, Clone, PartialEq)]
pub struct SpawnRotation {
    /// The point in time, in beats, when this event should produce its effect.  Wire key `b`.
    pub beat: Beats,
    /// The index of corresponding data in [`Beatmap::spawn_rotations_data`].  Wire key `i`.
    pub index: usize,
}

/// The mathematical value of a [`SpawnRotation`].
pub struct SpawnRotationV {
    /// See [`SpawnRotation::beat`].
    pub beat: Seq<char>,
    /// See [`SpawnRotation::index`].
    pub index: usize,
}

impl View for SpawnRotation {
    type V = SpawnRotationV;

    open spec fn view(&self) -> SpawnRotationV {
        SpawnRotationV {
            beat: self.beat@,
            index: self.index,
        }
    }
}

impl DeepView for SpawnRotation {
    type V = SpawnRotationV;

    open spec fn deep_view(&self) -> SpawnRotationV {
        self.view()
    }
}

/// How a spawn rotation placement is decoded from the members of its wire object.
pub open spec fn sd_spawn_rotation_ms(ms: Seq<(Seq<char>, JsonV)>) -> Result<SpawnRotationV, ErrorKind> {
    let r_beat = sd_beats(ms, "b"@);
    let r_index = sd_uint(ms, "i"@, usize::MAX as nat);
    if r_beat is Err {
        Err(r_beat->Err_0)
    } else if r_index is Err {
        Err(r_index->Err_0)
    } else {
        Ok(
            SpawnRotationV {
                beat: r_beat->Ok_0,
                index: r_index->Ok_0 as usize,
            },
        )
    }
}

/// How a spawn rotation placement is decoded from a wire value.
pub open spec fn sd_spawn_rotation(v: JsonV) -> Result<SpawnRotationV, ErrorKind> {
    match v {
        JsonV::Obj(ms) => sd_spawn_rotation_ms(ms),
        _ => Err(ErrorKind::Decode),
    }
}

/// The wire object of a spawn rotation placement, keys in declaration order.
pub open spec fn js_spawn_rotation(m: SpawnRotationV) -> JsonV {
    JsonV::Obj(
        seq![
            ("b"@, JsonV::Num(m.beat)),
            ("i"@, JsonV::Num(dec_text(m.index as nat))),
        ],
    )
}

impl SpawnRotation {
    /// Decodes one record from the members of its wire object.
    pub fn from_members(ms: &Vec<(String, Json)>) -> (r: Result<SpawnRotation, Error>)
        ensures
            match r {
                Ok(x) => sd_spawn_rotation_ms(vms(ms@)) == Ok::<SpawnRotationV, ErrorKind>(x@),
                Err(e) => sd_spawn_rotation_ms(vms(ms@)) == Err::<SpawnRotationV, ErrorKind>(e.kind()),
            },
    {
        let beat = match f_beats(ms, "b") {
            Ok(v) => v,
            Err(e) => return Err(e),
        };
        let index = match f_usize(ms, "i") {
            Ok(v) => v,
            Err(e) => return Err(e),
        };
        Ok(SpawnRotation { beat, index })
    }

    /// Decodes one record from its wire value.
    pub fn from_json(j: &Json) -> (r: Result<SpawnRotation, Error>)
        ensures
            match r {
                Ok(x) => sd_spawn_rotation(j.v()) == Ok::<SpawnRotationV, ErrorKind>(x@),
                Err(e) => sd_spawn_rotation(j.v()) == Err::<SpawnRotationV, ErrorKind>(e.kind()),
            },
    {
        match j {
            Json::Obj(ms) => SpawnRotation::from_members(ms),
            _ => Err(Error::Decode(String::from_str("spawn rotation"))),
        }
    }

    /// Encodes this record as its wire object.
    pub fn to_json(&self) -> (r: Json)
        ensures
            r.v() == js_spawn_rotation(self@),
    {
        let mut ms: Vec<(String, Json)> = Vec::new();
        ms.push((String::from_str("b"), Json::Num(self.beat.clone())));
        ms.push((String::from_str("i"), Json::Num(dec_string(self.index as u64))));
        let r = Json::Obj(ms);
        proof {
            assert(ms@[0].0@ == "b"@ && ms@[0].1.v() == JsonV::Num(self@.beat));
            assert(ms@[1].0@ == "i"@ && ms@[1].1.v() == JsonV::Num(dec_text(self@.index as nat)));
            assert(r.v() matches JsonV::Obj(got) && (js_spawn_rotation(self@) matches JsonV::Obj(
                want,
            ) && got =~~= want));
        }
        r
    }
}

/// How the records from `i` on of an array are decoded, after those already
/// read into `acc`.
pub open spec fn sd_spawn_rotation_list(items: Seq<JsonV>, i: int, acc: Seq<SpawnRotationV>) -> Result<
    Seq<SpawnRotationV>,
    ErrorKind,
>
    decreases items.len() - i,
{
    if !(0 <= i < items.len()) {
        Ok(acc)
    } else {
        match sd_spawn_rotation(items[i]) {
            Err(e) => Err(e),
            Ok(x) => sd_spawn_rotation_list(items, i + 1, acc.push(x)),
        }
    }
}

/// How a whole array field of such records is decoded; absent means empty.
pub open spec fn sd_spawn_rotation_list_field(ms: Seq<(Seq<char>, JsonV)>, key: Seq<char>) -> Result<
    Seq<SpawnRotationV>,
    ErrorKind,
> {
    match sd_arr(ms, key) {
        Err(e) => Err(e),
        Ok(items) => sd_spawn_rotation_list(items, 0, Seq::empty()),
    }
}

/// The wire objects of a list of such records.
pub open spec fn js_spawn_rotation_list(l: Seq<SpawnRotationV>) -> Seq<JsonV> {
    Seq::new(
        l.len(),
        |i: int|
            if 0 <= i < l.len() {
                js_spawn_rotation(l[i])
            } else {
                JsonV::Null
            },
    )
}

/// Decodes a whole array of such records, failing on the first bad one.
fn spawn_rotation_list_from(items: &Vec<Json>) -> (r: Result<Vec<SpawnRotation>, Error>)
    ensures
        match r {
            Ok(l) => sd_spawn_rotation_list(vs(items@), 0, Seq::empty()) == Ok::<Seq<SpawnRotationV>, ErrorKind>(
                l.deep_view(),
            ),
            Err(e) => sd_spawn_rotation_list(vs(items@), 0, Seq::empty()) == Err::<Seq<SpawnRotationV>, ErrorKind>(
                e.kind(),
            ),
        },
{
    let n = items.len();
    let mut acc: Vec<SpawnRotation> = Vec::new();
    let mut i: usize = 0;
    proof {
        assert(acc.deep_view() =~= Seq::<SpawnRotationV>::empty());
    }
    while i < n
        invariant
            i <= n == items@.len(),
            sd_spawn_rotation_list(vs(items@), 0, Seq::empty()) == sd_spawn_rotation_list(
                vs(items@),
                i as int,
                acc.deep_view(),
            ),
        decreases n - i,
    {
        let ghost prev = acc.deep_view();
        match SpawnRotation::from_json(&items[i]) {
            Ok(x) => {
                acc.push(x);
                proof {
                    assert(acc.deep_view() =~= prev.push(acc@[acc@.len() - 1]@));
                }
            },
            Err(e) => {
                return Err(e);
            },
        }
        i += 1;
    }
    Ok(acc)
}

/// Reads a whole array field of such records; absent means empty.
fn spawn_rotation_list_field(ms: &Vec<(String, Json)>, key: &str) -> (r: Result<Vec<SpawnRotation>, Error>)
    ensures
        match r {
            Ok(l) => sd_spawn_rotation_list_field(vms(ms@), key@) == Ok::<Seq<SpawnRotationV>, ErrorKind>(
                l.deep_view(),
            ),
            Err(e) => sd_spawn_rotation_list_field(vms(ms@), key@) == Err::<Seq<SpawnRotationV>, ErrorKind>(e.kind()),
        },
{
    let empty_items: Vec<Json> = Vec::new();
    proof {
        assert(vs(empty_items@) =~= Seq::<JsonV>::empty());
    }
    match crate::fields::get_e(ms, key) {
        None => spawn_rotation_list_from(&empty_items),
        Some(a) => match a {
            Json::Arr(items) => spawn_rotation_list_from(items),
            _ => Err(Error::Decode(String::from_str(key))),
        },
    }
}

/// Encodes a whole list of such records.
fn spawn_rotation_list_json(l: &Vec<SpawnRotation>) -> (r: Vec<Json>)
    ensures
        vs(r@) == js_spawn_rotation_list(l.deep_view()),
{
    let n = l.len();
    let mut acc: Vec<Json> = Vec::new();
    let mut i: usize = 0;
    while i < n
        invariant
            i <= n == l@.len(),
            acc@.len() == i,
            forall|k: int| 0 <= k < i ==> #[trigger] acc@[k].v() == js_spawn_rotation(l@[k]@),
        decreases n - i,
    {
        acc.push(l[i].to_json());
        i += 1;
    }
    proof {
        assert forall|k: int| 0 <= k < l@.len() implies #[trigger] vs(acc@)[k] == js_spawn_rotation_list(
            l.deep_view(),
        )[k] by {
            assert(l.deep_view()[k] == l@[k]@);
            assert(acc@[k].v() == js_spawn_rotation(l@[k]@));
        }
        assert(vs(acc@) =~= js_spawn_rotation_list(l.deep_view()));
    }
    acc
}

/// The attributes of a [`SpawnRotation`].  Legacy: use
/// [`Object::rotation_lane`] instead; kept for wire compatibility.
#[derive(Debug, Clone, PartialEq)]
pub struct SpawnRotationData {
    /// See [`ExecutionTime`].  Wire key `t`.
    pub execution_time: ExecutionTime,
    /// The magnitude and direction of the lane rotation, kept as written.  Wire key `r`.
    pub magnitude: Beats,
}

/// The mathematical value of a [`SpawnRotationData`].
pub struct SpawnRotationDataV {
    /// See [`SpawnRotationData::execution_time`].
    pub execution_time: ExecutionTime,
    /// See [`SpawnRotationData::magnitude`].
    pub magnitude: Seq<char>,
}

impl View for SpawnRotationData {
    type V = SpawnRotationDataV;

    open spec fn view(&self) -> SpawnRotationDataV {
        SpawnRotationDataV {
            execution_time: self.execution_time,
            magnitude: self.magnitude@,
        }
    }
}

impl DeepView for SpawnRotationData {
    type V = SpawnRotationDataV;

    open spec fn deep_view(&self) -> SpawnRotationDataV {
        self.view()
    }
}

/// How a spawn rotation's attributes is decoded from the members of its wire object.
pub open spec fn sd_spawn_rotation_data_ms(ms: Seq<(Seq<char>, JsonV)>) -> Result<SpawnRotationDataV, ErrorKind> {
    let r_execution_time = sd_execution_time_field(ms, "t"@);
    let r_magnitude = sd_beats(ms, "r"@);
    if r_execution_time is Err {
        Err(r_execution_time->Err_0)
    } else if r_magnitude is Err {
        Err(r_magnitude->Err_0)
    } else {
        Ok(
            SpawnRotationDataV {
                execution_time: r_execution_time->Ok_0,
                magnitude: r_magnitude->Ok_0,
            },
        )
    }
}

/// How a spawn rotation's attributes is decoded from a wire value.
pub open spec fn sd_spawn_rotation_data(v: JsonV) -> Result<SpawnRotationDataV, ErrorKind> {
    match v {
        JsonV::Obj(ms) => sd_spawn_rotation_data_ms(ms),
        _ => Err(ErrorKind::Decode),
    }
}

/// The wire object of a spawn rotation's attributes, keys in declaration order.
pub open spec fn js_spawn_rotation_data(m: SpawnRotationDataV) -> JsonV {
    JsonV::Obj(
        seq![
            ("t"@, JsonV::Num(dec_text(m.execution_time.ordinal() as nat))),
            ("r"@, JsonV::Num(m.magnitude)),
        ],
    )
}

impl SpawnRotationData {
    /// Decodes one record from the members of its wire object.
    pub fn from_members(ms: &Vec<(String, Json)>) -> (r: Result<SpawnRotationData, Error>)
        ensures
            match r {
                Ok(x) => sd_spawn_rotation_data_ms(vms(ms@)) == Ok::<SpawnRotationDataV, ErrorKind>(x@),
                Err(e) => sd_spawn_rotation_data_ms(vms(ms@)) == Err::<SpawnRotationDataV, ErrorKind>(e.kind()),
            },
    {
        let execution_time = match f_execution_time(ms, "t") {
            Ok(v) => v,
            Err(e) => return Err(e),
        };
        let magnitude = match f_beats(ms, "r") {
            Ok(v) => v,
            Err(e) => return Err(e),
        };
        Ok(SpawnRotationData { execution_time, magnitude })
    }

    /// Decodes one record from its wire value.
    pub fn from_json(j: &Json) -> (r: Result<SpawnRotationData, Error>)
        ensures
            match r {
                Ok(x) => sd_spawn_rotation_data(j.v()) == Ok::<SpawnRotationDataV, ErrorKind>(x@),
                Err(e) => sd_spawn_rotation_data(j.v()) == Err::<SpawnRotationDataV, ErrorKind>(e.kind()),
            },
    {
        match j {
            Json::Obj(ms) => SpawnRotationData::from_members(ms),
            _ => Err(Error::Decode(String::from_str("spawn rotation data"))),
        }
    }

    /// Encodes this record as its wire object.
    pub fn to_json(&self) -> (r: Json)
        ensures
            r.v() == js_spawn_rotation_data(self@),
    {
        let mut ms: Vec<(String, Json)> = Vec::new();
        ms.push((String::from_str("t"), Json::Num(dec_string(self.execution_time.to_wire() as u64))));
        ms.push((String::from_str("r"), Json::Num(self.magnitude.clone())));
        let r = Json::Obj(ms);
        proof {
            assert(ms@[0].0@ == "t"@ && ms@[0].1.v() == JsonV::Num(dec_text(self@.execution_time.ordinal() as nat)));
            assert(ms@[1].0@ == "r"@ && ms@[1].1.v() == JsonV::Num(self@.magnitude));
            assert(r.v() matches JsonV::Obj(got) && (js_spawn_rotation_data(self@) matches JsonV::Obj(
                want,
            ) && got =~~= want));
        }
        r
    }
}

/// How the records from `i` on of an array are decoded, after those already
/// read into `acc`.
pub open spec fn sd_spawn_rotation_data_list(items: Seq<JsonV>, i: int, acc: Seq<SpawnRotationDataV>) -> Result<
    Seq<SpawnRotationDataV>,
    ErrorKind,
>
    decreases items.len() - i,
{
    if !(0 <= i < items.len()) {
        Ok(acc)
    } else {
        match sd_spawn_rotation_data(items[i]) {
            Err(e) => Err(e),
            Ok(x) => sd_spawn_rotation_data_list(items, i + 1, acc.push(x)),
        }
    }
}

/// How a whole array field of such records is decoded; absent means empty.
pub open spec fn sd_spawn_rotation_data_list_field(ms: Seq<(Seq<char>, JsonV)>, key: Seq<char>) -> Result<
    Seq<SpawnRotationDataV>,
    ErrorKind,
> {
    match sd_arr(ms, key) {
        Err(e) => Err(e),
        Ok(items) => sd_spawn_rotation_data_list(items, 0, Seq::empty()),
    }
}

/// The wire objects of a list of such records.
pub open spec fn js_spawn_rotation_data_list(l: Seq<SpawnRotationDataV>) -> Seq<JsonV> {
    Seq::new(
        l.len(),
        |i: int|
            if 0 <= i < l.len() {
                js_spawn_rotation_data(l[i])
            } else {
                JsonV::Null
            },
    )
}

/// Decodes a whole array of such records, failing on the first bad one.
fn spawn_rotation_data_list_from(items: &Vec<Json>) -> (r: Result<Vec<SpawnRotationData>, Error>)
    ensures
        match r {
            Ok(l) => sd_spawn_rotation_data_list(vs(items@), 0, Seq::empty()) == Ok::<Seq<SpawnRotationDataV>, ErrorKind>(
                l.deep_view(),
            ),
            Err(e) => sd_spawn_rotation_data_list(vs(items@), 0, Seq::empty()) == Err::<Seq<SpawnRotationDataV>, ErrorKind>(
                e.kind(),
            ),
        },
{
    let n = items.len();
    let mut acc: Vec<SpawnRotationData> = Vec::new();
    let mut i: usize = 0;
    proof {
        assert(acc.deep_view() =~= Seq::<SpawnRotationDataV>::empty());
    }
    while i < n
        invariant
            i <= n == items@.len(),
            sd_spawn_rotation_data_list(vs(items@), 0, Seq::empty()) == sd_spawn_rotation_data_list(
                vs(items@),
                i as int,
                acc.deep_view(),
            ),
        decreases n - i,
    {
        let ghost prev = acc.deep_view();
        match SpawnRotationData::from_json(&items[i]) {
            Ok(x) => {
                acc.push(x);
                proof {
                    assert(acc.deep_view() =~= prev.push(acc@[acc@.len() - 1]@));
                }
            },
            Err(e) => {
                return Err(e);
            },
        }
        i += 1;
    }
    Ok(acc)
}

/// Reads a whole array field of such records; absent means empty.
fn spawn_rotation_data_list_field(ms: &Vec<(String, Json)>, key: &str) -> (r: Result<Vec<SpawnRotationData>, Error>)
    ensures
        match r {
            Ok(l) => sd_spawn_rotation_data_list_field(vms(ms@), key@) == Ok::<Seq<SpawnRotationDataV>, ErrorKind>(
                l.deep_view(),
            ),
            Err(e) => sd_spawn_rotation_data_list_field(vms(ms@), key@) == Err::<Seq<SpawnRotationDataV>, ErrorKind>(e.kind()),
        },
{
    let empty_items: Vec<Json> = Vec::new();
    proof {
        assert(vs(empty_items@) =~= Seq::<JsonV>::empty());
    }
    match crate::fields::get_e(ms, key) {
        None => spawn_rotation_data_list_from(&empty_items),
        Some(a) => match a {
            Json::Arr(items) => spawn_rotation_data_list_from(items),
            _ => Err(Error::Decode(String::from_str(key))),
        },
    }
}

/// Encodes a whole list of such records.
fn spawn_rotation_data_list_json(l: &Vec<SpawnRotationData>) -> (r: Vec<Json>)
    ensures
        vs(r@) == js_spawn_rotation_data_list(l.deep_view()),
{
    let n = l.len();
    let mut acc: Vec<Json> = Vec::new();
    let mut i: usize = 0;
    while i < n
        invariant
            i <= n == l@.len(),
            acc@.len() == i,
            forall|k: int| 0 <= k < i ==> #[trigger] acc@[k].v() == js_spawn_rotation_data(l@[k]@),
        decreases n - i,
    {
        acc.push(l[i].to_json());
        i += 1;
    }
    proof {
        assert forall|k: int| 0 <= k < l@.len() implies #[trigger] vs(acc@)[k] == js_spawn_rotation_data_list(
            l.deep_view(),
        )[k] by {
            assert(l.deep_view()[k] == l@[k]@);
            assert(acc@[k].v() == js_spawn_rotation_data(l@[k]@));
        }
        assert(vs(acc@) =~= js_spawn_rotation_data_list(l.deep_view()));
    }
    acc
}

/// Collections and associated metadata for all *interactable* beatmap
/// items, such as notes and obstacles.
#[derive(Debug, Clone, PartialEq)]
pub struct Beatmap {
    /// Should be "4.0.0", that's the currently supported schema version.  Wire key `version`.
    pub version: String,
    /// The color note placements; see [`Object`].  Wire key `colorNotes`.
    pub color_notes: Vec<Object>,
    /// See [`ColorNoteData`].  Wire key `colorNotesData`.
    pub color_notes_data: Vec<ColorNoteData>,
    /// The bomb note placements; see [`Object`].  Wire key `bombNotes`.
    pub bomb_notes: Vec<Object>,
    /// See [`GridPosition`].  Wire key `bombNotesData`.
    pub bomb_notes_data: Vec<GridPosition>,
    /// The obstacle placements; see [`Object`].  Wire key `obstacles`.
    pub obstacles: Vec<Object>,
    /// See [`ObstacleData`].  Wire key `obstaclesData`.
    pub obstacles_data: Vec<ObstacleData>,
    /// See [`Arc`].  Wire key `arcs`.
    pub arcs: Vec<Arc>,
    /// See [`ArcData`].  Wire key `arcsData`.
    pub arcs_data: Vec<ArcData>,
    /// See [`Chain`].  Wire key `chains`.
    pub chains: Vec<Chain>,
    /// See [`ChainData`].  Wire key `chainsData`.
    pub chains_data: Vec<ChainData>,
    /// Legacy; see [`SpawnRotation`].  Wire key `spawnRotations`.
    pub spawn_rotations: Vec<SpawnRotation>,
    /// Legacy; see [`SpawnRotationData`].  Wire key `spawnRotationsData`.
    pub spawn_rotations_data: Vec<SpawnRotationData>,
}

/// The mathematical value of a [`Beatmap`].
pub struct BeatmapV {
    /// See [`Beatmap::version`].
    pub version: Seq<char>,
    /// See [`Beatmap::color_notes`].
    pub color_notes: Seq<ObjectV>,
    /// See [`Beatmap::color_notes_data`].
    pub color_notes_data: Seq<ColorNoteDataV>,
    /// See [`Beatmap::bomb_notes`].
    pub bomb_notes: Seq<ObjectV>,
    /// See [`Beatmap::bomb_notes_data`].
    pub bomb_notes_data: Seq<GridPositionV>,
    /// See [`Beatmap::obstacles`].
    pub obstacles: Seq<ObjectV>,
    /// See [`Beatmap::obstacles_data`].
    pub obstacles_data: Seq<ObstacleDataV>,
    /// See [`Beatmap::arcs`].
    pub arcs: Seq<ArcV>,
    /// See [`Beatmap::arcs_data`].
    pub arcs_data: Seq<ArcDataV>,
    /// See [`Beatmap::chains`].
    pub chains: Seq<ChainV>,
    /// See [`Beatmap::chains_data`].
    pub chains_data: Seq<ChainDataV>,
    /// See [`Beatmap::spawn_rotations`].
    pub spawn_rotations: Seq<SpawnRotationV>,
    /// See [`Beatmap::spawn_rotations_data`].
    pub spawn_rotations_data: Seq<SpawnRotationDataV>,
}

impl View for Beatmap {
    type V = BeatmapV;

    open spec fn view(&self) -> BeatmapV {
        BeatmapV {
            version: self.version@,
            color_notes: self.color_notes.deep_view(),
            color_notes_data: self.color_notes_data.deep_view(),
            bomb_notes: self.bomb_notes.deep_view(),
            bomb_notes_data: self.bomb_notes_data.deep_view(),
            obstacles: self.obstacles.deep_view(),
            obstacles_data: self.obstacles_data.deep_view(),
            arcs: self.arcs.deep_view(),
            arcs_data: self.arcs_data.deep_view(),
            chains: self.chains.deep_view(),
            chains_data: self.chains_data.deep_view(),
            spawn_rotations: self.spawn_rotations.deep_view(),
            spawn_rotations_data: self.spawn_rotations_data.deep_view(),
        }
    }
}

impl DeepView for Beatmap {
    type V = BeatmapV;

    open spec fn deep_view(&self) -> BeatmapV {
        self.view()
    }
}

/// How a whole beatmap is decoded from the members of its wire object.
pub open spec fn sd_beatmap_ms(ms: Seq<(Seq<char>, JsonV)>) -> Result<BeatmapV, ErrorKind> {
    let r_version = sd_string(ms, "version"@, "4.0.0"@);
    let r_color_notes = sd_object_list_field(ms, "colorNotes"@);
    let r_color_notes_data = sd_color_note_data_list_field(ms, "colorNotesData"@);
    let r_bomb_notes = sd_object_list_field(ms, "bombNotes"@);
    let r_bomb_notes_data = sd_grid_position_list_field(ms, "bombNotesData"@);
    let r_obstacles = sd_object_list_field(ms, "obstacles"@);
    let r_obstacles_data = sd_obstacle_data_list_field(ms, "obstaclesData"@);
    let r_arcs = sd_arc_list_field(ms, "arcs"@);
    let r_arcs_data = sd_arc_data_list_field(ms, "arcsData"@);
    let r_chains = sd_chain_list_field(ms, "chains"@);
    let r_chains_data = sd_chain_data_list_field(ms, "chainsData"@);
    let r_spawn_rotations = sd_spawn_rotation_list_field(ms, "spawnRotations"@);
    let r_spawn_rotations_data = sd_spawn_rotation_data_list_field(ms, "spawnRotationsData"@);
    if r_version is Err {
        Err(r_version->Err_0)
    } else if r_color_notes is Err {
        Err(r_color_notes->Err_0)
    } else if r_color_notes_data is Err {
        Err(r_color_notes_data->Err_0)
    } else if r_bomb_notes is Err {
        Err(r_bomb_notes->Err_0)
    } else if r_bomb_notes_data is Err {
        Err(r_bomb_notes_data->Err_0)
    } else if r_obstacles is Err {
        Err(r_obstacles->Err_0)
    } else if r_obstacles_data is Err {
        Err(r_obstacles_data->Err_0)
    } else if r_arcs is Err {
        Err(r_arcs->Err_0)
    } else if r_arcs_data is Err {
        Err(r_arcs_data->Err_0)
    } else if r_chains is Err {
        Err(r_chains->Err_0)
    } else if r_chains_data is Err {
        Err(r_chains_data->Err_0)
    } else if r_spawn_rotations is Err {
        Err(r_spawn_rotations->Err_0)
    } else if r_spawn_rotations_data is Err {
        Err(r_spawn_rotations_data->Err_0)
    } else {
        Ok(
            BeatmapV {
                version: r_version->Ok_0,
                color_notes: r_color_notes->Ok_0,
                color_notes_data: r_color_notes_data->Ok_0,
                bomb_notes: r_bomb_notes->Ok_0,
                bomb_notes_data: r_bomb_notes_data->Ok_0,
                obstacles: r_obstacles->Ok_0,
                obstacles_data: r_obstacles_data->Ok_0,
                arcs: r_arcs->Ok_0,
                arcs_data: r_arcs_data->Ok_0,
                chains: r_chains->Ok_0,
                chains_data: r_chains_data->Ok_0,
                spawn_rotations: r_spawn_rotations->Ok_0,
                spawn_rotations_data: r_spawn_rotations_data->Ok_0,
            },
        )
    }
}

/// How a whole beatmap is decoded from a wire value.
pub open spec fn sd_beatmap(v: JsonV) -> Result<BeatmapV, ErrorKind> {
    match v {
        JsonV::Obj(ms) => sd_beatmap_ms(ms),
        _ => Err(ErrorKind::Decode),
    }
}

/// The wire object of a whole beatmap, keys in declaration order.
pub open spec fn js_beatmap(m: BeatmapV) -> JsonV {
    JsonV::Obj(
        seq![
            ("version"@, JsonV::Str(m.version)),
            ("colorNotes"@, JsonV::Arr(js_object_list(m.color_notes))),
            ("colorNotesData"@, JsonV::Arr(js_color_note_data_list(m.color_notes_data))),
            ("bombNotes"@, JsonV::Arr(js_object_list(m.bomb_notes))),
            ("bombNotesData"@, JsonV::Arr(js_grid_position_list(m.bomb_notes_data))),
            ("obstacles"@, JsonV::Arr(js_object_list(m.obstacles))),
            ("obstaclesData"@, JsonV::Arr(js_obstacle_data_list(m.obstacles_data))),
            ("arcs"@, JsonV::Arr(js_arc_list(m.arcs))),
            ("arcsData"@, JsonV::Arr(js_arc_data_list(m.arcs_data))),
            ("chains"@, JsonV::Arr(js_chain_list(m.chains))),
            ("chainsData"@, JsonV::Arr(js_chain_data_list(m.chains_data))),
            ("spawnRotations"@, JsonV::Arr(js_spawn_rotation_list(m.spawn_rotations))),
            ("spawnRotationsData"@, JsonV::Arr(js_spawn_rotation_data_list(m.spawn_rotations_data))),
        ],
    )
}

impl Beatmap {
    /// Decodes one record from the members of its wire object.
    pub fn from_members(ms: &Vec<(String, Json)>) -> (r: Result<Beatmap, Error>)
        ensures
            match r {
                Ok(x) => sd_beatmap_ms(vms(ms@)) == Ok::<BeatmapV, ErrorKind>(x@),
                Err(e) => sd_beatmap_ms(vms(ms@)) == Err::<BeatmapV, ErrorKind>(e.kind()),
            },
    {
        let version = match f_string(ms, "version", "4.0.0") {
            Ok(v) => v,
            Err(e) => return Err(e),
        };
        let color_notes = match object_list_field(ms, "colorNotes") {
            Ok(v) => v,
            Err(e) => return Err(e),
        };
        let color_notes_data = match color_note_data_list_field(ms, "colorNotesData") {
            Ok(v) => v,
            Err(e) => return Err(e),
        };
        let bomb_notes = match object_list_field(ms, "bombNotes") {
            Ok(v) => v,
            Err(e) => return Err(e),
        };
        let bomb_notes_data = match grid_position_list_field(ms, "bombNotesData") {
            Ok(v) => v,
            Err(e) => return Err(e),
        };
        let obstacles = match object_list_field(ms, "obstacles") {
            Ok(v) => v,
            Err(e) => return Err(e),
        };
        let obstacles_data = match obstacle_data_list_field(ms, "obstaclesData") {
            Ok(v) => v,
            Err(e) => return Err(e),
        };
        let arcs = match arc_list_field(ms, "arcs") {
            Ok(v) => v,
            Err(e) => return Err(e),
        };
        let arcs_data = match arc_data_list_field(ms, "arcsData") {
            Ok(v) => v,
            Err(e) => return Err(e),
        };
        let chains = match chain_list_field(ms, "chains") {
            Ok(v) => v,
            Err(e) => return Err(e),
        };
        let chains_data = match chain_data_list_field(ms, "chainsData") {
            Ok(v) => v,
            Err(e) => return Err(e),
        };
        let spawn_rotations = match spawn_rotation_list_field(ms, "spawnRotations") {
            Ok(v) => v,
            Err(e) => return Err(e),
        };
        let spawn_rotations_data = match spawn_rotation_data_list_field(ms, "spawnRotationsData") {
            Ok(v) => v,
            Err(e) => return Err(e),
        };
        Ok(Beatmap { version, color_notes, color_notes_data, bomb_notes, bomb_notes_data, obstacles, obstacles_data, arcs, arcs_data, chains, chains_data, spawn_rotations, spawn_rotations_data })
    }

    /// Decodes one record from its wire value.
    pub fn from_json(j: &Json) -> (r: Result<Beatmap, Error>)
        ensures
            match r {
                Ok(x) => sd_beatmap(j.v()) == Ok::<BeatmapV, ErrorKind>(x@),
                Err(e) => sd_beatmap(j.v()) == Err::<BeatmapV, ErrorKind>(e.kind()),
            },
    {
        match j {
            Json::Obj(ms) => Beatmap::from_members(ms),
            _ => Err(Error::Decode(String::from_str("beatmap"))),
        }
    }

    /// Encodes this record as its wire object.
    pub fn to_json(&self) -> (r: Json)
        ensures
            r.v() == js_beatmap(self@),
    {
        let mut ms: Vec<(String, Json)> = Vec::new();
        ms.push((String::from_str("version"), Json::Str(self.version.clone())));
        ms.push((String::from_str("colorNotes"), Json::Arr(object_list_json(&self.color_notes))));
        ms.push((String::from_str("colorNotesData"), Json::Arr(color_note_data_list_json(&self.color_notes_data))));
        ms.push((String::from_str("bombNotes"), Json::Arr(object_list_json(&self.bomb_notes))));
        ms.push((String::from_str("bombNotesData"), Json::Arr(grid_position_list_json(&self.bomb_notes_data))));
        ms.push((String::from_str("obstacles"), Json::Arr(object_list_json(&self.obstacles))));
        ms.push((String::from_str("obstaclesData"), Json::Arr(obstacle_data_list_json(&self.obstacles_data))));
        ms.push((String::from_str("arcs"), Json::Arr(arc_list_json(&self.arcs))));
        ms.push((String::from_str("arcsData"), Json::Arr(arc_data_list_json(&self.arcs_data))));
        ms.push((String::from_str("chains"), Json::Arr(chain_list_json(&self.chains))));
        ms.push((String::from_str("chainsData"), Json::Arr(chain_data_list_json(&self.chains_data))));
        ms.push((String::from_str("spawnRotations"), Json::Arr(spawn_rotation_list_json(&self.spawn_rotations))));
        ms.push((String::from_str("spawnRotationsData"), Json::Arr(spawn_rotation_data_list_json(&self.spawn_rotations_data))));
        let r = Json::Obj(ms);
        proof {
            assert(ms@[0].0@ == "version"@ && ms@[0].1.v() == JsonV::Str(self@.version));
            assert(ms@[1].0@ == "colorNotes"@ && ms@[1].1.v() == JsonV::Arr(js_object_list(self@.color_notes)));
            assert(ms@[2].0@ == "colorNotesData"@ && ms@[2].1.v() == JsonV::Arr(js_color_note_data_list(self@.color_notes_data)));
            assert(ms@[3].0@ == "bombNotes"@ && ms@[3].1.v() == JsonV::Arr(js_object_list(self@.bomb_notes)));
            assert(ms@[4].0@ == "bombNotesData"@ && ms@[4].1.v() == JsonV::Arr(js_grid_position_list(self@.bomb_notes_data)));
            assert(ms@[5].0@ == "obstacles"@ && ms@[5].1.v() == JsonV::Arr(js_object_list(self@.obstacles)));
            assert(ms@[6].0@ == "obstaclesData"@ && ms@[6].1.v() == JsonV::Arr(js_obstacle_data_list(self@.obstacles_data)));
            assert(ms@[7].0@ == "arcs"@ && ms@[7].1.v() == JsonV::Arr(js_arc_list(self@.arcs)));
            assert(ms@[8].0@ == "arcsData"@ && ms@[8].1.v() == JsonV::Arr(js_arc_data_list(self@.arcs_data)));
            assert(ms@[9].0@ == "chains"@ && ms@[9].1.v() == JsonV::Arr(js_chain_list(self@.chains)));
            assert(ms@[10].0@ == "chainsData"@ && ms@[10].1.v() == JsonV::Arr(js_chain_data_list(self@.chains_data)));
            assert(ms@[11].0@ == "spawnRotations"@ && ms@[11].1.v() == JsonV::Arr(js_spawn_rotation_list(self@.spawn_rotations)));
            assert(ms@[12].0@ == "spawnRotationsData"@ && ms@[12].1.v() == JsonV::Arr(js_spawn_rotation_data_list(self@.spawn_rotations_data)));
            assert(r.v() matches JsonV::Obj(got) && (js_beatmap(self@) matches JsonV::Obj(
                want,
            ) && got =~~= want));
        }
        r
    }
}

/// How a whole beatmap is decoded from document text.
pub open spec fn beatmap_from_text(t: Seq<char>) -> Result<BeatmapV, ErrorKind> {
    match sp_document(t) {
        None => Err(ErrorKind::Decode),
        Some(v) => sd_beatmap(v),
    }
}

impl Beatmap {
    /// Decodes a beatmap from document text, typically the contents of a
    /// file such as `Normal.dat`.
    pub fn from_json_text(text: &str) -> (r: Result<Beatmap, Error>)
        ensures
            match r {
                Ok(b) => beatmap_from_text(text@) == Ok::<BeatmapV, ErrorKind>(b@),
                Err(e) => beatmap_from_text(text@) == Err::<BeatmapV, ErrorKind>(e.kind()),
            },
    {
        match Json::parse_document(text) {
            None => Err(Error::Decode(String::from_str(text))),
            Some(doc) => Beatmap::from_json(&doc),
        }
    }

    /// Encodes this beatmap as pretty-printed document text, the exact
    /// layout of a beatmap file.
    pub fn to_json_pretty(&self) -> (r: String)
        ensures
            r@ == pp_document(js_beatmap(self@)),
    {
        self.to_json().to_pretty()
    }
}

impl Default for Beatmap {
    /// The value whose every field carries its absent-field default: the
    /// same value that decoding an empty wire object yields.
    fn default() -> (r: Beatmap)
        ensures
            sd_beatmap_ms(Seq::empty()) == Ok::<BeatmapV, ErrorKind>(r@),
    {
        let r = Beatmap {
            version: String::from_str("4.0.0"),
            color_notes: Vec::new(),
            color_notes_data: Vec::new(),
            bomb_notes: Vec::new(),
            bomb_notes_data: Vec::new(),
            obstacles: Vec::new(),
            obstacles_data: Vec::new(),
            arcs: Vec::new(),
            arcs_data: Vec::new(),
            chains: Vec::new(),
            chains_data: Vec::new(),
            spawn_rotations: Vec::new(),
            spawn_rotations_data: Vec::new(),
        };
        proof {
            assert(r.color_notes.deep_view() =~= Seq::<ObjectV>::empty());
            assert(r.color_notes_data.deep_view() =~= Seq::<ColorNoteDataV>::empty());
            assert(r.bomb_notes.deep_view() =~= Seq::<ObjectV>::empty());
            assert(r.bomb_notes_data.deep_view() =~= Seq::<GridPositionV>::empty());
            assert(r.obstacles.deep_view() =~= Seq::<ObjectV>::empty());
            assert(r.obstacles_data.deep_view() =~= Seq::<ObstacleDataV>::empty());
            assert(r.arcs.deep_view() =~= Seq::<ArcV>::empty());
            assert(r.arcs_data.deep_view() =~= Seq::<ArcDataV>::empty());
            assert(r.chains.deep_view() =~= Seq::<ChainV>::empty());
            assert(r.chains_data.deep_view() =~= Seq::<ChainDataV>::empty());
            assert(r.spawn_rotations.deep_view() =~= Seq::<SpawnRotationV>::empty());
            assert(r.spawn_rotations_data.deep_view() =~= Seq::<SpawnRotationDataV>::empty());
        }
        r
    }
}

/// Decoding the wire object that encoding wrote gives the grid position back.
pub proof fn lemma_grid_position_round_trip(m: GridPositionV)
    ensures
        sd_grid_position(js_grid_position(m)) == Ok::<GridPositionV, ErrorKind>(m),
{
    reveal_strlit("x");
    reveal_strlit("y");
    assert((("x"@).len() == 1) && (("x"@)[0] == 'x'));
    assert((("y"@).len() == 1) && (("y"@)[0] == 'y'));
    lemma_line_index_round_trip(m.line_index);
    crate::num::lemma_dec_text_val(m.line_index.ordinal() as nat);
    lemma_line_layer_round_trip(m.line_layer);
    crate::num::lemma_dec_text_val(m.line_layer.ordinal() as nat);
    let ms = seq![
        ("x"@, JsonV::Num(dec_text(m.line_index.ordinal() as nat))),
        ("y"@, JsonV::Num(dec_text(m.line_layer.ordinal() as nat))),
    ];
    assert(js_grid_position(m) == JsonV::Obj(ms));
    lemma_jget_at(ms, 0, "x"@);
    assert(jget(ms, "x"@) == Some(JsonV::Num(dec_text(m.line_index.ordinal() as nat))));
    lemma_jget_at(ms, 1, "y"@);
    assert(jget(ms, "y"@) == Some(JsonV::Num(dec_text(m.line_layer.ordinal() as nat))));
}

/// Decoding an encoded list of such records, from position `i` on, appends
/// the remaining records to those already read.
pub proof fn lemma_grid_position_list_round_trip(l: Seq<GridPositionV>, i: int, acc: Seq<GridPositionV>)
    requires
        0 <= i <= l.len(),
    ensures
        sd_grid_position_list(js_grid_position_list(l), i, acc) == Ok::<Seq<GridPositionV>, ErrorKind>(acc + l.skip(i)),
    decreases l.len() - i,
{
    if i == l.len() {
        assert(acc + l.skip(i) =~= acc);
    } else {
        lemma_grid_position_round_trip(l[i]);
        assert(js_grid_position_list(l)[i] == js_grid_position(l[i]));
        lemma_grid_position_list_round_trip(l, i + 1, acc.push(l[i]));
        assert(acc.push(l[i]) + l.skip(i + 1) =~= acc + l.skip(i));
    }
}

/// Decoding the wire object that encoding wrote gives the placement back.
pub proof fn lemma_object_round_trip(m: ObjectV)
    ensures
        sd_object(js_object(m)) == Ok::<ObjectV, ErrorKind>(m),
{
    reveal_strlit("b");
    reveal_strlit("r");
    reveal_strlit("i");
    assert((("b"@).len() == 1) && (("b"@)[0] == 'b'));
    assert((("r"@).len() == 1) && (("r"@)[0] == 'r'));
    assert((("i"@).len() == 1) && (("i"@)[0] == 'i'));
    crate::num::lemma_int_text_val(m.rotation_lane as int, i16::MIN as int, i16::MAX as int);
    crate::num::lemma_dec_text_val(m.metadata_index as nat);
    let ms = seq![
        ("b"@, JsonV::Num(m.beat)),
        ("r"@, JsonV::Num(int_text(m.rotation_lane as int))),
        ("i"@, JsonV::Num(dec_text(m.metadata_index as nat))),
    ];
    assert(js_object(m) == JsonV::Obj(ms));
    lemma_jget_at(ms, 0, "b"@);
    assert(jget(ms, "b"@) == Some(JsonV::Num(m.beat)));
    lemma_jget_at(ms, 1, "r"@);
    assert(jget(ms, "r"@) == Some(JsonV::Num(int_text(m.rotation_lane as int))));
    lemma_jget_at(ms, 2, "i"@);
    assert(jget(ms, "i"@) == Some(JsonV::Num(dec_text(m.metadata_index as nat))));
}

/// Decoding an encoded list of such records, from position `i` on, appends
/// the remaining records to those already read.
pub proof fn lemma_object_list_round_trip(l: Seq<ObjectV>, i: int, acc: Seq<ObjectV>)
    requires
        0 <= i <= l.len(),
    ensures
        sd_object_list(js_object_list(l), i, acc) == Ok::<Seq<ObjectV>, ErrorKind>(acc + l.skip(i)),
    decreases l.len() - i,
{
    if i == l.len() {
        assert(acc + l.skip(i) =~= acc);
    } else {
        lemma_object_round_trip(l[i]);
        assert(js_object_list(l)[i] == js_object(l[i]));
        lemma_object_list_round_trip(l, i + 1, acc.push(l[i]));
        assert(acc.push(l[i]) + l.skip(i + 1) =~= acc + l.skip(i));
    }
}

/// Decoding the wire object that encoding wrote gives the note's attributes back.
pub proof fn lemma_color_note_data_round_trip(m: ColorNoteDataV)
    ensures
        sd_color_note_data(js_color_note_data(m)) == Ok::<ColorNoteDataV, ErrorKind>(m),
{
    reveal_strlit("x");
    reveal_strlit("y");
    reveal_strlit("c");
    reveal_strlit("d");
    reveal_strlit("a");
    assert((("x"@).len() == 1) && (("x"@)[0] == 'x'));
    assert((("y"@).len() == 1) && (("y"@)[0] == 'y'));
    assert((("c"@).len() == 1) && (("c"@)[0] == 'c'));
    assert((("d"@).len() == 1) && (("d"@)[0] == 'd'));
    assert((("a"@).len() == 1) && (("a"@)[0] == 'a'));
    lemma_line_index_round_trip(m.grid_position.line_index);
    crate::num::lemma_dec_text_val(m.grid_position.line_index.ordinal() as nat);
    lemma_line_layer_round_trip(m.grid_position.line_layer);
    crate::num::lemma_dec_text_val(m.grid_position.line_layer.ordinal() as nat);
    lemma_color_round_trip(m.color);
    crate::num::lemma_dec_text_val(m.color.ordinal() as nat);
    lemma_cut_direction_round_trip(m.cut_direction);
    crate::num::lemma_dec_text_val(m.cut_direction.ordinal() as nat);
    crate::num::lemma_int_text_val(m.angle_offset as int, i16::MIN as int, i16::MAX as int);
    let ms = seq![
        ("x"@, JsonV::Num(dec_text(m.grid_position.line_index.ordinal() as nat))),
        ("y"@, JsonV::Num(dec_text(m.grid_position.line_layer.ordinal() as nat))),
        ("c"@, JsonV::Num(dec_text(m.color.ordinal() as nat))),
        ("d"@, JsonV::Num(dec_text(m.cut_direction.ordinal() as nat))),
        ("a"@, JsonV::Num(int_text(m.angle_offset as int))),
    ];
    assert(js_color_note_data(m) == JsonV::Obj(ms));
    lemma_jget_at(ms, 0, "x"@);
    assert(jget(ms, "x"@) == Some(JsonV::Num(dec_text(m.grid_position.line_index.ordinal() as nat))));
    lemma_jget_at(ms, 1, "y"@);
    assert(jget(ms, "y"@) == Some(JsonV::Num(dec_text(m.grid_position.line_layer.ordinal() as nat))));
    lemma_jget_at(ms, 2, "c"@);
    assert(jget(ms, "c"@) == Some(JsonV::Num(dec_text(m.color.ordinal() as nat))));
    lemma_jget_at(ms, 3, "d"@);
    assert(jget(ms, "d"@) == Some(JsonV::Num(dec_text(m.cut_direction.ordinal() as nat))));
    lemma_jget_at(ms, 4, "a"@);
    assert(jget(ms, "a"@) == Some(JsonV::Num(int_text(m.angle_offset as int))));
}

/// Decoding an encoded list of such records, from position `i` on, appends
/// the remaining records to those already read.
pub proof fn lemma_color_note_data_list_round_trip(l: Seq<ColorNoteDataV>, i: int, acc: Seq<ColorNoteDataV>)
    requires
        0 <= i <= l.len(),
    ensures
        sd_color_note_data_list(js_color_note_data_list(l), i, acc) == Ok::<Seq<ColorNoteDataV>, ErrorKind>(acc + l.skip(i)),
    decreases l.len() - i,
{
    if i == l.len() {
        assert(acc + l.skip(i) =~= acc);
    } else {
        lemma_color_note_data_round_trip(l[i]);
        assert(js_color_note_data_list(l)[i] == js_color_note_data(l[i]));
        lemma_color_note_data_list_round_trip(l, i + 1, acc.push(l[i]));
        assert(acc.push(l[i]) + l.skip(i + 1) =~= acc + l.skip(i));
    }
}

/// Decoding the wire object that encoding wrote gives the obstacle's attributes back.
pub proof fn lemma_obstacle_data_round_trip(m: ObstacleDataV)
    ensures
        sd_obstacle_data(js_obstacle_data(m)) == Ok::<ObstacleDataV, ErrorKind>(m),
{
    reveal_strlit("d");
    reveal_strlit("x");
    reveal_strlit("y");
    reveal_strlit("w");
    reveal_strlit("h");
    assert((("d"@).len() == 1) && (("d"@)[0] == 'd'));
    assert((("x"@).len() == 1) && (("x"@)[0] == 'x'));
    assert((("y"@).len() == 1) && (("y"@)[0] == 'y'));
    assert((("w"@).len() == 1) && (("w"@)[0] == 'w'));
    assert((("h"@).len() == 1) && (("h"@)[0] == 'h'));
    lemma_line_index_round_trip(m.grid_position.line_index);
    crate::num::lemma_dec_text_val(m.grid_position.line_index.ordinal() as nat);
    lemma_line_layer_round_trip(m.grid_position.line_layer);
    crate::num::lemma_dec_text_val(m.grid_position.line_layer.ordinal() as nat);
    crate::num::lemma_int_text_val(m.width as int, i8::MIN as int, i8::MAX as int);
    crate::num::lemma_int_text_val(m.height as int, i8::MIN as int, i8::MAX as int);
    let ms = seq![
        ("d"@, JsonV::Num(m.duration)),
        ("x"@, JsonV::Num(dec_text(m.grid_position.line_index.ordinal() as nat))),
        ("y"@, JsonV::Num(dec_text(m.grid_position.line_layer.ordinal() as nat))),
        ("w"@, JsonV::Num(int_text(m.width as int))),
        ("h"@, JsonV::Num(int_text(m.height as int))),
    ];
    assert(js_obstacle_data(m) == JsonV::Obj(ms));
    lemma_jget_at(ms, 0, "d"@);
    assert(jget(ms, "d"@) == Some(JsonV::Num(m.duration)));
    lemma_jget_at(ms, 1, "x"@);
    assert(jget(ms, "x"@) == Some(JsonV::Num(dec_text(m.grid_position.line_index.ordinal() as nat))));
    lemma_jget_at(ms, 2, "y"@);
    assert(jget(ms, "y"@) == Some(JsonV::Num(dec_text(m.grid_position.line_layer.ordinal() as nat))));
    lemma_jget_at(ms, 3, "w"@);
    assert(jget(ms, "w"@) == Some(JsonV::Num(int_text(m.width as int))));
    lemma_jget_at(ms, 4, "h"@);
    assert(jget(ms, "h"@) == Some(JsonV::Num(int_text(m.height as int))));
}

/// Decoding an encoded list of such records, from position `i` on, appends
/// the remaining records to those already read.
pub proof fn lemma_obstacle_data_list_round_trip(l: Seq<ObstacleDataV>, i: int, acc: Seq<ObstacleDataV>)
    requires
        0 <= i <= l.len(),
    ensures
        sd_obstacle_data_list(js_obstacle_data_list(l), i, acc) == Ok::<Seq<ObstacleDataV>, ErrorKind>(acc + l.skip(i)),
    decreases l.len() - i,
{
    if i == l.len() {
        assert(acc + l.skip(i) =~= acc);
    } else {
        lemma_obstacle_data_round_trip(l[i]);
        assert(js_obstacle_data_list(l)[i] == js_obstacle_data(l[i]));
        lemma_obstacle_data_list_round_trip(l, i + 1, acc.push(l[i]));
        assert(acc.push(l[i]) + l.skip(i + 1) =~= acc + l.skip(i));
    }
}

/// Decoding the wire object that encoding wrote gives the arc placement back.
pub proof fn lemma_arc_round_trip(m: ArcV)
    ensures
        sd_arc(js_arc(m)) == Ok::<ArcV, ErrorKind>(m),
{
    reveal_strlit("hb");
    reveal_strlit("tb");
    reveal_strlit("hr");
    reveal_strlit("tr");
    reveal_strlit("hi");
    reveal_strlit("ti");
    reveal_strlit("ai");
    assert((("hb"@).len() == 2) && (("hb"@)[0] == 'h') && (("hb"@)[1] == 'b'));
    assert((("tb"@).len() == 2) && (("tb"@)[0] == 't') && (("tb"@)[1] == 'b'));
    assert((("hr"@).len() == 2) && (("hr"@)[0] == 'h') && (("hr"@)[1] == 'r'));
    assert((("tr"@).len() == 2) && (("tr"@)[0] == 't') && (("tr"@)[1] == 'r'));
    assert((("hi"@).len() == 2) && (("hi"@)[0] == 'h') && (("hi"@)[1] == 'i'));
    assert((("ti"@).len() == 2) && (("ti"@)[0] == 't') && (("ti"@)[1] == 'i'));
    assert((("ai"@).len() == 2) && (("ai"@)[0] == 'a') && (("ai"@)[1] == 'i'));
    crate::num::lemma_int_text_val(m.head_rotation_lane as int, i16::MIN as int, i16::MAX as int);
    crate::num::lemma_int_text_val(m.tail_rotation_lane as int, i16::MIN as int, i16::MAX as int);
    crate::num::lemma_dec_text_val(m.head_metadata_index as nat);
    crate::num::lemma_dec_text_val(m.tail_metadata_index as nat);
    crate::num::lemma_dec_text_val(m.arc_metadata_index as nat);
    let ms = seq![
        ("hb"@, JsonV::Num(m.head_beat)),
        ("tb"@, JsonV::Num(m.tail_beat)),
        ("hr"@, JsonV::Num(int_text(m.head_rotation_lane as int))),
        ("tr"@, JsonV::Num(int_text(m.tail_rotation_lane as int))),
        ("hi"@, JsonV::Num(dec_text(m.head_metadata_index as nat))),
        ("ti"@, JsonV::Num(dec_text(m.tail_metadata_index as nat))),
        ("ai"@, JsonV::Num(dec_text(m.arc_metadata_index as nat))),
    ];
    assert(js_arc(m) == JsonV::Obj(ms));
    lemma_jget_at(ms, 0, "hb"@);
    assert(jget(ms, "hb"@) == Some(JsonV::Num(m.head_beat)));
    lemma_jget_at(ms, 1, "tb"@);
    assert(jget(ms, "tb"@) == Some(JsonV::Num(m.tail_beat)));
    lemma_jget_at(ms, 2, "hr"@);
    assert(jget(ms, "hr"@) == Some(JsonV::Num(int_text(m.head_rotation_lane as int))));
    lemma_jget_at(ms, 3, "tr"@);
    assert(jget(ms, "tr"@) == Some(JsonV::Num(int_text(m.tail_rotation_lane as int))));
    lemma_jget_at(ms, 4, "hi"@);
    assert(jget(ms, "hi"@) == Some(JsonV::Num(dec_text(m.head_metadata_index as nat))));
    lemma_jget_at(ms, 5, "ti"@);
    assert(jget(ms, "ti"@) == Some(JsonV::Num(dec_text(m.tail_metadata_index as nat))));
    lemma_jget_at(ms, 6, "ai"@);
    assert(jget(ms, "ai"@) == Some(JsonV::Num(dec_text(m.arc_metadata_index as nat))));
}

/// Decoding an encoded list of such records, from position `i` on, appends
/// the remaining records to those already read.
pub proof fn lemma_arc_list_round_trip(l: Seq<ArcV>, i: int, acc: Seq<ArcV>)
    requires
        0 <= i <= l.len(),
    ensures
        sd_arc_list(js_arc_list(l), i, acc) == Ok::<Seq<ArcV>, ErrorKind>(acc + l.skip(i)),
    decreases l.len() - i,
{
    if i == l.len() {
        assert(acc + l.skip(i) =~= acc);
    } else {
        lemma_arc_round_trip(l[i]);
        assert(js_arc_list(l)[i] == js_arc(l[i]));
        lemma_arc_list_round_trip(l, i + 1, acc.push(l[i]));
        assert(acc.push(l[i]) + l.skip(i + 1) =~= acc + l.skip(i));
    }
}

/// Decoding the wire object that encoding wrote gives the arc's attributes back.
pub proof fn lemma_arc_data_round_trip(m: ArcDataV)
    ensures
        sd_arc_data(js_arc_data(m)) == Ok::<ArcDataV, ErrorKind>(m),
{
    reveal_strlit("m");
    reveal_strlit("tm");
    reveal_strlit("a");
    assert((("m"@).len() == 1) && (("m"@)[0] == 'm'));
    assert((("tm"@).len() == 2) && (("tm"@)[0] == 't') && (("tm"@)[1] == 'm'));
    assert((("a"@).len() == 1) && (("a"@)[0] == 'a'));
    lemma_mid_anchor_mode_round_trip(m.mid_anchor_mode);
    crate::num::lemma_dec_text_val(m.mid_anchor_mode.ordinal() as nat);
    let ms = seq![
        ("m"@, JsonV::Num(m.head_multiplier)),
        ("tm"@, JsonV::Num(m.tail_multiplier)),
        ("a"@, JsonV::Num(dec_text(m.mid_anchor_mode.ordinal() as nat))),
    ];
    assert(js_arc_data(m) == JsonV::Obj(ms));
    lemma_jget_at(ms, 0, "m"@);
    assert(jget(ms, "m"@) == Some(JsonV::Num(m.head_multiplier)));
    lemma_jget_at(ms, 1, "tm"@);
    assert(jget(ms, "tm"@) == Some(JsonV::Num(m.tail_multiplier)));
    lemma_jget_at(ms, 2, "a"@);
    assert(jget(ms, "a"@) == Some(JsonV::Num(dec_text(m.mid_anchor_mode.ordinal() as nat))));
}

/// Decoding an encoded list of such records, from position `i` on, appends
/// the remaining records to those already read.
pub proof fn lemma_arc_data_list_round_trip(l: Seq<ArcDataV>, i: int, acc: Seq<ArcDataV>)
    requires
        0 <= i <= l.len(),
    ensures
        sd_arc_data_list(js_arc_data_list(l), i, acc) == Ok::<Seq<ArcDataV>, ErrorKind>(acc + l.skip(i)),
    decreases l.len() - i,
{
    if i == l.len() {
        assert(acc + l.skip(i) =~= acc);
    } else {
        lemma_arc_data_round_trip(l[i]);
        assert(js_arc_data_list(l)[i] == js_arc_data(l[i]));
        lemma_arc_data_list_round_trip(l, i + 1, acc.push(l[i]));
        assert(acc.push(l[i]) + l.skip(i + 1) =~= acc + l.skip(i));
    }
}

/// Decoding the wire object that encoding wrote gives the chain placement back.
pub proof fn lemma_chain_round_trip(m: ChainV)
    ensures
        sd_chain(js_chain(m)) == Ok::<ChainV, ErrorKind>(m),
{
    reveal_strlit("hb");
    reveal_strlit("tb");
    reveal_strlit("hr");
    reveal_strlit("tr");
    reveal_strlit("i");
    reveal_strlit("ci");
    assert((("hb"@).len() == 2) && (("hb"@)[0] == 'h') && (("hb"@)[1] == 'b'));
    assert((("tb"@).len() == 2) && (("tb"@)[0] == 't') && (("tb"@)[1] == 'b'));
    assert((("hr"@).len() == 2) && (("hr"@)[0] == 'h') && (("hr"@)[1] == 'r'));
    assert((("tr"@).len() == 2) && (("tr"@)[0] == 't') && (("tr"@)[1] == 'r'));
    assert((("i"@).len() == 1) && (("i"@)[0] == 'i'));
    assert((("ci"@).len() == 2) && (("ci"@)[0] == 'c') && (("ci"@)[1] == 'i'));
    crate::num::lemma_int_text_val(m.head_rotation_lane as int, i16::MIN as int, i16::MAX as int);
    crate::num::lemma_int_text_val(m.tail_rotation_lane as int, i16::MIN as int, i16::MAX as int);
    crate::num::lemma_dec_text_val(m.head_metadata_index as nat);
    crate::num::lemma_dec_text_val(m.chain_metadata_index as nat);
    let ms = seq![
        ("hb"@, JsonV::Num(m.head_beat)),
        ("tb"@, JsonV::Num(m.tail_beat)),
        ("hr"@, JsonV::Num(int_text(m.head_rotation_lane as int))),
        ("tr"@, JsonV::Num(int_text(m.tail_rotation_lane as int))),
        ("i"@, JsonV::Num(dec_text(m.head_metadata_index as nat))),
        ("ci"@, JsonV::Num(dec_text(m.chain_metadata_index as nat))),
    ];
    assert(js_chain(m) == JsonV::Obj(ms));
    lemma_jget_at(ms, 0, "hb"@);
    assert(jget(ms, "hb"@) == Some(JsonV::Num(m.head_beat)));
    lemma_jget_at(ms, 1, "tb"@);
    assert(jget(ms, "tb"@) == Some(JsonV::Num(m.tail_beat)));
    lemma_jget_at(ms, 2, "hr"@);
    assert(jget(ms, "hr"@) == Some(JsonV::Num(int_text(m.head_rotation_lane as int))));
    lemma_jget_at(ms, 3, "tr"@);
    assert(jget(ms, "tr"@) == Some(JsonV::Num(int_text(m.tail_rotation_lane as int))));
    lemma_jget_at(ms, 4, "i"@);
    assert(jget(ms, "i"@) == Some(JsonV::Num(dec_text(m.head_metadata_index as nat))));
    lemma_jget_at(ms, 5, "ci"@);
    assert(jget(ms, "ci"@) == Some(JsonV::Num(dec_text(m.chain_metadata_index as nat))));
}

/// Decoding an encoded list of such records, from position `i` on, appends
/// the remaining records to those already read.
pub proof fn lemma_chain_list_round_trip(l: Seq<ChainV>, i: int, acc: Seq<ChainV>)
    requires
        0 <= i <= l.len(),
    ensures
        sd_chain_list(js_chain_list(l), i, acc) == Ok::<Seq<ChainV>, ErrorKind>(acc + l.skip(i)),
    decreases l.len() - i,
{
    if i == l.len() {
        assert(acc + l.skip(i) =~= acc);
    } else {
        lemma_chain_round_trip(l[i]);
        assert(js_chain_list(l)[i] == js_chain(l[i]));
        lemma_chain_list_round_trip(l, i + 1, acc.push(l[i]));
        assert(acc.push(l[i]) + l.skip(i + 1) =~= acc + l.skip(i));
    }
}

/// Decoding the wire object that encoding wrote gives the chain's attributes back.
pub proof fn lemma_chain_data_round_trip(m: ChainDataV)
    ensures
        sd_chain_data(js_chain_data(m)) == Ok::<ChainDataV, ErrorKind>(m),
{
    reveal_strlit("tx");
    reveal_strlit("ty");
    reveal_strlit("c");
    reveal_strlit("s");
    assert((("tx"@).len() == 2) && (("tx"@)[0] == 't') && (("tx"@)[1] == 'x'));
    assert((("ty"@).len() == 2) && (("ty"@)[0] == 't') && (("ty"@)[1] == 'y'));
    assert((("c"@).len() == 1) && (("c"@)[0] == 'c'));
    assert((("s"@).len() == 1) && (("s"@)[0] == 's'));
    lemma_line_index_round_trip(m.tail_line_index);
    crate::num::lemma_dec_text_val(m.tail_line_index.ordinal() as nat);
    lemma_line_layer_round_trip(m.tail_line_layer);
    crate::num::lemma_dec_text_val(m.tail_line_layer.ordinal() as nat);
    crate::num::lemma_dec_text_val(m.slice_count as nat);
    let ms = seq![
        ("tx"@, JsonV::Num(dec_text(m.tail_line_index.ordinal() as nat))),
        ("ty"@, JsonV::Num(dec_text(m.tail_line_layer.ordinal() as nat))),
        ("c"@, JsonV::Num(dec_text(m.slice_count as nat))),
        ("s"@, JsonV::Num(m.squish_factor)),
    ];
    assert(js_chain_data(m) == JsonV::Obj(ms));
    lemma_jget_at(ms, 0, "tx"@);
    assert(jget(ms, "tx"@) == Some(JsonV::Num(dec_text(m.tail_line_index.ordinal() as nat))));
    lemma_jget_at(ms, 1, "ty"@);
    assert(jget(ms, "ty"@) == Some(JsonV::Num(dec_text(m.tail_line_layer.ordinal() as nat))));
    lemma_jget_at(ms, 2, "c"@);
    assert(jget(ms, "c"@) == Some(JsonV::Num(dec_text(m.slice_count as nat))));
    lemma_jget_at(ms, 3, "s"@);
    assert(jget(ms, "s"@) == Some(JsonV::Num(m.squish_factor)));
}

/// Decoding an encoded list of such records, from position `i` on, appends
/// the remaining records to those already read.
pub proof fn lemma_chain_data_list_round_trip(l: Seq<ChainDataV>, i: int, acc: Seq<ChainDataV>)
    requires
        0 <= i <= l.len(),
    ensures
        sd_chain_data_list(js_chain_data_list(l), i, acc) == Ok::<Seq<ChainDataV>, ErrorKind>(acc + l.skip(i)),
    decreases l.len() - i,
{
    if i == l.len() {
        assert(acc + l.skip(i) =~= acc);
    } else {
        lemma_chain_data_round_trip(l[i]);
        assert(js_chain_data_list(l)[i] == js_chain_data(l[i]));
        lemma_chain_data_list_round_trip(l, i + 1, acc.push(l[i]));
        assert(acc.push(l[i]) + l.skip(i + 1) =~= acc + l.skip(i));
    }
}

/// Decoding the wire object that encoding wrote gives the spawn rotation back.
pub proof fn lemma_spawn_rotation_round_trip(m: SpawnRotationV)
    ensures
        sd_spawn_rotation(js_spawn_rotation(m)) == Ok::<SpawnRotationV, ErrorKind>(m),
{
    reveal_strlit("b");
    reveal_strlit("i");
    assert((("b"@).len() == 1) && (("b"@)[0] == 'b'));
    assert((("i"@).len() == 1) && (("i"@)[0] == 'i'));
    crate::num::lemma_dec_text_val(m.index as nat);
    let ms = seq![
        ("b"@, JsonV::Num(m.beat)),
        ("i"@, JsonV::Num(dec_text(m.index as nat))),
    ];
    assert(js_spawn_rotation(m) == JsonV::Obj(ms));
    lemma_jget_at(ms, 0, "b"@);
    assert(jget(ms, "b"@) == Some(JsonV::Num(m.beat)));
    lemma_jget_at(ms, 1, "i"@);
    assert(jget(ms, "i"@) == Some(JsonV::Num(dec_text(m.index as nat))));
}

/// Decoding an encoded list of such records, from position `i` on, appends
/// the remaining records to those already read.
pub proof fn lemma_spawn_rotation_list_round_trip(l: Seq<SpawnRotationV>, i: int, acc: Seq<SpawnRotationV>)
    requires
        0 <= i <= l.len(),
    ensures
        sd_spawn_rotation_list(js_spawn_rotation_list(l), i, acc) == Ok::<Seq<SpawnRotationV>, ErrorKind>(acc + l.skip(i)),
    decreases l.len() - i,
{
    if i == l.len() {
        assert(acc + l.skip(i) =~= acc);
    } else {
        lemma_spawn_rotation_round_trip(l[i]);
        assert(js_spawn_rotation_list(l)[i] == js_spawn_rotation(l[i]));
        lemma_spawn_rotation_list_round_trip(l, i + 1, acc.push(l[i]));
        assert(acc.push(l[i]) + l.skip(i + 1) =~= acc + l.skip(i));
    }
}

/// Decoding the wire object that encoding wrote gives the spawn rotation's attributes back.
pub proof fn lemma_spawn_rotation_data_round_trip(m: SpawnRotationDataV)
    ensures
        sd_spawn_rotation_data(js_spawn_rotation_data(m)) == Ok::<SpawnRotationDataV, ErrorKind>(m),
{
    reveal_strlit("t");
    reveal_strlit("r");
    assert((("t"@).len() == 1) && (("t"@)[0] == 't'));
    assert((("r"@).len() == 1) && (("r"@)[0] == 'r'));
    lemma_execution_time_round_trip(m.execution_time);
    crate::num::lemma_dec_text_val(m.execution_time.ordinal() as nat);
    let ms = seq![
        ("t"@, JsonV::Num(dec_text(m.execution_time.ordinal() as nat))),
        ("r"@, JsonV::Num(m.magnitude)),
    ];
    assert(js_spawn_rotation_data(m) == JsonV::Obj(ms));
    lemma_jget_at(ms, 0, "t"@);
    assert(jget(ms, "t"@) == Some(JsonV::Num(dec_text(m.execution_time.ordinal() as nat))));
    lemma_jget_at(ms, 1, "r"@);
    assert(jget(ms, "r"@) == Some(JsonV::Num(m.magnitude)));
}

/// Decoding an encoded list of such records, from position `i` on, appends
/// the remaining records to those already read.
pub proof fn lemma_spawn_rotation_data_list_round_trip(l: Seq<SpawnRotationDataV>, i: int, acc: Seq<SpawnRotationDataV>)
    requires
        0 <= i <= l.len(),
    ensures
        sd_spawn_rotation_data_list(js_spawn_rotation_data_list(l), i, acc) == Ok::<Seq<SpawnRotationDataV>, ErrorKind>(acc + l.skip(i)),
    decreases l.len() - i,
{
    if i == l.len() {
        assert(acc + l.skip(i) =~= acc);
    } else {
        lemma_spawn_rotation_data_round_trip(l[i]);
        assert(js_spawn_rotation_data_list(l)[i] == js_spawn_rotation_data(l[i]));
        lemma_spawn_rotation_data_list_round_trip(l, i + 1, acc.push(l[i]));
        assert(acc.push(l[i]) + l.skip(i + 1) =~= acc + l.skip(i));
    }
}

/// Decoding the wire object that encoding wrote gives the whole beatmap back.
#[verifier::rlimit(100)]
pub proof fn lemma_beatmap_round_trip(m: BeatmapV)
    ensures
        sd_beatmap(js_beatmap(m)) == Ok::<BeatmapV, ErrorKind>(m),
{
    reveal_strlit("version");
    reveal_strlit("colorNotes");
    reveal_strlit("colorNotesData");
    reveal_strlit("bombNotes");
    reveal_strlit("bombNotesData");
    reveal_strlit("obstacles");
    reveal_strlit("obstaclesData");
    reveal_strlit("arcs");
    reveal_strlit("arcsData");
    reveal_strlit("chains");
    reveal_strlit("chainsData");
    reveal_strlit("spawnRotations");
    reveal_strlit("spawnRotationsData");
    assert((("version"@).len() == 7) && (("version"@)[0] == 'v') && (("version"@)[1] == 'e') && (("version"@)[2] == 'r') && (("version"@)[3] == 's') && (("version"@)[4] == 'i') && (("version"@)[5] == 'o') && (("version"@)[6] == 'n'));
    assert((("colorNotes"@).len() == 10) && (("colorNotes"@)[0] == 'c') && (("colorNotes"@)[1] == 'o') && (("colorNotes"@)[2] == 'l') && (("colorNotes"@)[3] == 'o') && (("colorNotes"@)[4] == 'r') && (("colorNotes"@)[5] == 'N') && (("colorNotes"@)[6] == 'o') && (("colorNotes"@)[7] == 't') && (("colorNotes"@)[8] == 'e') && (("colorNotes"@)[9] == 's'));
    assert((("colorNotesData"@).len() == 14) && (("colorNotesData"@)[0] == 'c') && (("colorNotesData"@)[1] == 'o') && (("colorNotesData"@)[2] == 'l') && (("colorNotesData"@)[3] == 'o') && (("colorNotesData"@)[4] == 'r') && (("colorNotesData"@)[5] == 'N') && (("colorNotesData"@)[6] == 'o') && (("colorNotesData"@)[7] == 't') && (("colorNotesData"@)[8] == 'e') && (("colorNotesData"@)[9] == 's') && (("colorNotesData"@)[10] == 'D') && (("colorNotesData"@)[11] == 'a') && (("colorNotesData"@)[12] == 't') && (("colorNotesData"@)[13] == 'a'));
    assert((("bombNotes"@).len() == 9) && (("bombNotes"@)[0] == 'b') && (("bombNotes"@)[1] == 'o') && (("bombNotes"@)[2] == 'm') && (("bombNotes"@)[3] == 'b') && (("bombNotes"@)[4] == 'N') && (("bombNotes"@)[5] == 'o') && (("bombNotes"@)[6] == 't') && (("bombNotes"@)[7] == 'e') && (("bombNotes"@)[8] == 's'));
    assert((("bombNotesData"@).len() == 13) && (("bombNotesData"@)[0] == 'b') && (("bombNotesData"@)[1] == 'o') && (("bombNotesData"@)[2] == 'm') && (("bombNotesData"@)[3] == 'b') && (("bombNotesData"@)[4] == 'N') && (("bombNotesData"@)[5] == 'o') && (("bombNotesData"@)[6] == 't') && (("bombNotesData"@)[7] == 'e') && (("bombNotesData"@)[8] == 's') && (("bombNotesData"@)[9] == 'D') && (("bombNotesData"@)[10] == 'a') && (("bombNotesData"@)[11] == 't') && (("bombNotesData"@)[12] == 'a'));
    assert((("obstacles"@).len() == 9) && (("obstacles"@)[0] == 'o') && (("obstacles"@)[1] == 'b') && (("obstacles"@)[2] == 's') && (("obstacles"@)[3] == 't') && (("obstacles"@)[4] == 'a') && (("obstacles"@)[5] == 'c') && (("obstacles"@)[6] == 'l') && (("obstacles"@)[7] == 'e') && (("obstacles"@)[8] == 's'));
    assert((("obstaclesData"@).len() == 13) && (("obstaclesData"@)[0] == 'o') && (("obstaclesData"@)[1] == 'b') && (("obstaclesData"@)[2] == 's') && (("obstaclesData"@)[3] == 't') && (("obstaclesData"@)[4] == 'a') && (("obstaclesData"@)[5] == 'c') && (("obstaclesData"@)[6] == 'l') && (("obstaclesData"@)[7] == 'e') && (("obstaclesData"@)[8] == 's') && (("obstaclesData"@)[9] == 'D') && (("obstaclesData"@)[10] == 'a') && (("obstaclesData"@)[11] == 't') && (("obstaclesData"@)[12] == 'a'));
    assert((("arcs"@).len() == 4) && (("arcs"@)[0] == 'a') && (("arcs"@)[1] == 'r') && (("arcs"@)[2] == 'c') && (("arcs"@)[3] == 's'));
    assert((("arcsData"@).len() == 8) && (("arcsData"@)[0] == 'a') && (("arcsData"@)[1] == 'r') && (("arcsData"@)[2] == 'c') && (("arcsData"@)[3] == 's') && (("arcsData"@)[4] == 'D') && (("arcsData"@)[5] == 'a') && (("arcsData"@)[6] == 't') && (("arcsData"@)[7] == 'a'));
    assert((("chains"@).len() == 6) && (("chains"@)[0] == 'c') && (("chains"@)[1] == 'h') && (("chains"@)[2] == 'a') && (("chains"@)[3] == 'i') && (("chains"@)[4] == 'n') && (("chains"@)[5] == 's'));
    assert((("chainsData"@).len() == 10) && (("chainsData"@)[0] == 'c') && (("chainsData"@)[1] == 'h') && (("chainsData"@)[2] == 'a') && (("chainsData"@)[3] == 'i') && (("chainsData"@)[4] == 'n') && (("chainsData"@)[5] == 's') && (("chainsData"@)[6] == 'D') && (("chainsData"@)[7] == 'a') && (("chainsData"@)[8] == 't') && (("chainsData"@)[9] == 'a'));
    assert((("spawnRotations"@).len() == 14) && (("spawnRotations"@)[0] == 's') && (("spawnRotations"@)[1] == 'p') && (("spawnRotations"@)[2] == 'a') && (("spawnRotations"@)[3] == 'w') && (("spawnRotations"@)[4] == 'n') && (("spawnRotations"@)[5] == 'R') && (("spawnRotations"@)[6] == 'o') && (("spawnRotations"@)[7] == 't') && (("spawnRotations"@)[8] == 'a') && (("spawnRotations"@)[9] == 't') && (("spawnRotations"@)[10] == 'i') && (("spawnRotations"@)[11] == 'o') && (("spawnRotations"@)[12] == 'n') && (("spawnRotations"@)[13] == 's'));
    assert((("spawnRotationsData"@).len() == 18) && (("spawnRotationsData"@)[0] == 's') && (("spawnRotationsData"@)[1] == 'p') && (("spawnRotationsData"@)[2] == 'a') && (("spawnRotationsData"@)[3] == 'w') && (("spawnRotationsData"@)[4] == 'n') && (("spawnRotationsData"@)[5] == 'R') && (("spawnRotationsData"@)[6] == 'o') && (("spawnRotationsData"@)[7] == 't') && (("spawnRotationsData"@)[8] == 'a') && (("spawnRotationsData"@)[9] == 't') && (("spawnRotationsData"@)[10] == 'i') && (("spawnRotationsData"@)[11] == 'o') && (("spawnRotationsData"@)[12] == 'n') && (("spawnRotationsData"@)[13] == 's') && (("spawnRotationsData"@)[14] == 'D') && (("spawnRotationsData"@)[15] == 'a') && (("spawnRotationsData"@)[16] == 't') && (("spawnRotationsData"@)[17] == 'a'));
    lemma_object_list_round_trip(m.color_notes, 0, Seq::empty());
    assert(Seq::<ObjectV>::empty() + m.color_notes.skip(0) =~= m.color_notes);
    lemma_color_note_data_list_round_trip(m.color_notes_data, 0, Seq::empty());
    assert(Seq::<ColorNoteDataV>::empty() + m.color_notes_data.skip(0) =~= m.color_notes_data);
    lemma_object_list_round_trip(m.bomb_notes, 0, Seq::empty());
    assert(Seq::<ObjectV>::empty() + m.bomb_notes.skip(0) =~= m.bomb_notes);
    lemma_grid_position_list_round_trip(m.bomb_notes_data, 0, Seq::empty());
    assert(Seq::<GridPositionV>::empty() + m.bomb_notes_data.skip(0) =~= m.bomb_notes_data);
    lemma_object_list_round_trip(m.obstacles, 0, Seq::empty());
    assert(Seq::<ObjectV>::empty() + m.obstacles.skip(0) =~= m.obstacles);
    lemma_obstacle_data_list_round_trip(m.obstacles_data, 0, Seq::empty());
    assert(Seq::<ObstacleDataV>::empty() + m.obstacles_data.skip(0) =~= m.obstacles_data);
    lemma_arc_list_round_trip(m.arcs, 0, Seq::empty());
    assert(Seq::<ArcV>::empty() + m.arcs.skip(0) =~= m.arcs);
    lemma_arc_data_list_round_trip(m.arcs_data, 0, Seq::empty());
    assert(Seq::<ArcDataV>::empty() + m.arcs_data.skip(0) =~= m.arcs_data);
    lemma_chain_list_round_trip(m.chains, 0, Seq::empty());
    assert(Seq::<ChainV>::empty() + m.chains.skip(0) =~= m.chains);
    lemma_chain_data_list_round_trip(m.chains_data, 0, Seq::empty());
    assert(Seq::<ChainDataV>::empty() + m.chains_data.skip(0) =~= m.chains_data);
    lemma_spawn_rotation_list_round_trip(m.spawn_rotations, 0, Seq::empty());
    assert(Seq::<SpawnRotationV>::empty() + m.spawn_rotations.skip(0) =~= m.spawn_rotations);
    lemma_spawn_rotation_data_list_round_trip(m.spawn_rotations_data, 0, Seq::empty());
    assert(Seq::<SpawnRotationDataV>::empty() + m.spawn_rotations_data.skip(0) =~= m.spawn_rotations_data);
    let ms = seq![
        ("version"@, JsonV::Str(m.version)),
        ("colorNotes"@, JsonV::Arr(js_object_list(m.color_notes))),
        ("colorNotesData"@, JsonV::Arr(js_color_note_data_list(m.color_notes_data))),
        ("bombNotes"@, JsonV::Arr(js_object_list(m.bomb_notes))),
        ("bombNotesData"@, JsonV::Arr(js_grid_position_list(m.bomb_notes_data))),
        ("obstacles"@, JsonV::Arr(js_object_list(m.obstacles))),
        ("obstaclesData"@, JsonV::Arr(js_obstacle_data_list(m.obstacles_data))),
        ("arcs"@, JsonV::Arr(js_arc_list(m.arcs))),
        ("arcsData"@, JsonV::Arr(js_arc_data_list(m.arcs_data))),
        ("chains"@, JsonV::Arr(js_chain_list(m.chains))),
        ("chainsData"@, JsonV::Arr(js_chain_data_list(m.chains_data))),
        ("spawnRotations"@, JsonV::Arr(js_spawn_rotation_list(m.spawn_rotations))),
        ("spawnRotationsData"@, JsonV::Arr(js_spawn_rotation_data_list(m.spawn_rotations_data))),
    ];
    assert(js_beatmap(m) == JsonV::Obj(ms));
    lemma_jget_at(ms, 0, "version"@);
    assert(jget(ms, "version"@) == Some(JsonV::Str(m.version)));
    lemma_jget_at(ms, 1, "colorNotes"@);
    assert(jget(ms, "colorNotes"@) == Some(JsonV::Arr(js_object_list(m.color_notes))));
    lemma_jget_at(ms, 2, "colorNotesData"@);
    assert(jget(ms, "colorNotesData"@) == Some(JsonV::Arr(js_color_note_data_list(m.color_notes_data))));
    lemma_jget_at(ms, 3, "bombNotes"@);
    assert(jget(ms, "bombNotes"@) == Some(JsonV::Arr(js_object_list(m.bomb_notes))));
    lemma_jget_at(ms, 4, "bombNotesData"@);
    assert(jget(ms, "bombNotesData"@) == Some(JsonV::Arr(js_grid_position_list(m.bomb_notes_data))));
    lemma_jget_at(ms, 5, "obstacles"@);
    assert(jget(ms, "obstacles"@) == Some(JsonV::Arr(js_object_list(m.obstacles))));
    lemma_jget_at(ms, 6, "obstaclesData"@);
    assert(jget(ms, "obstaclesData"@) == Some(JsonV::Arr(js_obstacle_data_list(m.obstacles_data))));
    lemma_jget_at(ms, 7, "arcs"@);
    assert(jget(ms, "arcs"@) == Some(JsonV::Arr(js_arc_list(m.arcs))));
    lemma_jget_at(ms, 8, "arcsData"@);
    assert(jget(ms, "arcsData"@) == Some(JsonV::Arr(js_arc_data_list(m.arcs_data))));
    lemma_jget_at(ms, 9, "chains"@);
    assert(jget(ms, "chains"@) == Some(JsonV::Arr(js_chain_list(m.chains))));
    lemma_jget_at(ms, 10, "chainsData"@);
    assert(jget(ms, "chainsData"@) == Some(JsonV::Arr(js_chain_data_list(m.chains_data))));
    lemma_jget_at(ms, 11, "spawnRotations"@);
    assert(jget(ms, "spawnRotations"@) == Some(JsonV::Arr(js_spawn_rotation_list(m.spawn_rotations))));
    lemma_jget_at(ms, 12, "spawnRotationsData"@);
    assert(jget(ms, "spawnRotationsData"@) == Some(JsonV::Arr(js_spawn_rotation_data_list(m.spawn_rotations_data))));
}

} // verus!
