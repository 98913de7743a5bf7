//! Toolpath-generator vocabulary: pattern and mode selectors, surface names and the generators'
//! error types, and the integer option checks they share.
use crate::text::{dec, push_decimal, push_str, string_from_str};
use vstd::prelude::*;

verus! {

/// An error from B-Rep import or slicing.
#[derive(Debug, Clone, PartialEq, Eq)]
pub struct BrepError {
    pub message: String,
}

impl BrepError {
    /// The error's text, as it is displayed: `B-Rep error: {message}`.
    pub fn display_text(&self) -> (s: String)
        ensures
            s@ == "B-Rep error: "@ + self.message@,
    {
        let mut s = string_from_str("B-Rep error: ");
        push_str(&mut s, self.message.as_str());
        s
    }
}

/// Role of a solid body in a multi-body B-Rep assembly.
#[derive(Debug, Clone, Copy, PartialEq, Eq, Structural)]
pub enum BrepBodyRole {
    /// Additive deposition solid body.
    AdditiveBody,
    /// Subtractive cavity/hole to be carved out.
    SubtractiveVoid,
    /// Keepout / obstacle boundary for toolholder collision avoidance.
    KeepoutObstacle,
}

/// Draping toolpath pattern.
#[derive(Debug, Clone, Copy, PartialEq, Eq, Default, Structural)]
pub enum DrapePattern {
    #[default]
    RasterX,
    RasterY,
    ZigZagX,
    ZigZagY,
    SpiralConcentric,
}

/// An error from mesh draping.
#[derive(Debug, Clone, PartialEq, Eq)]
pub enum DrapeError {
    InvalidMesh(String),
    InvalidParameters(String),
    NoSurfaceHit(String),
}

/// The text a drape error displays.
pub open spec fn spec_drape_error_text(e: DrapeError) -> Seq<char> {
    match e {
        DrapeError::InvalidMesh(m) => "Invalid mesh: "@ + m@,
        DrapeError::InvalidParameters(m) => "Invalid drape parameters: "@ + m@,
        DrapeError::NoSurfaceHit(m) => "No surface hit: "@ + m@,
    }
}

impl DrapeError {
    /// The error's text, as it is displayed.
    pub fn display_text(&self) -> (s: String)
        ensures
            s@ == spec_drape_error_text(*self),
    {
        let (prefix, m) = match self {
            DrapeError::InvalidMesh(m) => ("Invalid mesh: ", m),
            DrapeError::InvalidParameters(m) => ("Invalid drape parameters: ", m),
            DrapeError::NoSurfaceHit(m) => ("No surface hit: ", m),
        };
        let mut s = string_from_str(prefix);
        push_str(&mut s, m.as_str());
        s
    }
}

/// Pocket vs. profile cutting.
#[derive(Debug, Clone, Copy, PartialEq, Eq, Default, Structural)]
pub enum CutMode {
    #[default]
    Pocket,
    Profile,
}

/// A pocket/profile option error.
#[derive(Debug, Clone, PartialEq, Eq)]
pub struct PocketError {
    pub message: String,
}

impl PocketError {
    pub fn new(message: &str) -> (e: PocketError)
        ensures
            e.message@ == message@,
    {
        PocketError { message: string_from_str(message) }
    }

    /// The error's text, as it is displayed.
    pub fn display_text(&self) -> (s: String)
        ensures
            s@ == self.message@,
    {
        self.message.clone()
    }
}

/// A triply-periodic minimal surface, selecting which nodal field is sliced.
#[derive(Debug, Clone, Copy, PartialEq, Eq, Default, Structural)]
pub enum Surface {
    #[default]
    Gyroid,
    SchwarzP,
    SchwarzD,
    Iwp,
    Neovius,
    FischerKochS,
    FischerKochY,
    Frd,
    Lidinoid,
    SplitP,
}

/// The kebab-case wire name of a surface.
pub open spec fn spec_surface_name(s: Surface) -> Seq<char> {
    match s {
        Surface::Gyroid => "gyroid"@,
        Surface::SchwarzP => "schwarz-p"@,
        Surface::SchwarzD => "schwarz-d"@,
        Surface::Iwp => "iwp"@,
        Surface::Neovius => "neovius"@,
        Surface::FischerKochS => "fischer-koch-s"@,
        Surface::FischerKochY => "fischer-koch-y"@,
        Surface::Frd => "frd"@,
        Surface::Lidinoid => "lidinoid"@,
        Surface::SplitP => "split-p"@,
    }
}

impl Surface {
    /// The kebab-case wire name of the surface.
    pub fn wire_name(self) -> (name: &'static str)
        ensures
            name@ == spec_surface_name(self),
    {
        match self {
            Surface::Gyroid => "gyroid",
            Surface::SchwarzP => "schwarz-p",
            Surface::SchwarzD => "schwarz-d",
            Surface::Iwp => "iwp",
            Surface::Neovius => "neovius",
            Surface::FischerKochS => "fischer-koch-s",
            Surface::FischerKochY => "fischer-koch-y",
            Surface::Frd => "frd",
            Surface::Lidinoid => "lidinoid",
            Surface::SplitP => "split-p",
        }
    }
}

/// A TPMS option error.
#[derive(Debug, Clone, PartialEq, Eq)]
pub struct TpmsError {
    message: String,
}

impl TpmsError {
    pub fn new(message: String) -> (e: TpmsError)
        ensures
            e.text() == message@,
    {
        TpmsError { message }
    }

    /// The error's text, as it is displayed.
    pub closed spec fn text(&self) -> Seq<char> {
        self.message@
    }

    /// The error's text, as it is displayed.
    pub fn display_text(&self) -> (s: String)
        ensures
            s@ == self.text(),
    {
        self.message.clone()
    }
}

/// Checks an integer option against its minimum: the value itself when it is at least `min`, an
/// error naming the option otherwise.
pub fn at_least(name: &str, value: u32, min: u32) -> (r: Result<u32, TpmsError>)
    ensures
        value >= min ==> r == Ok::<u32, TpmsError>(value),
        value < min ==> (r matches Err(e) && e.text() == name@ + " must be an integer >= "@ + dec(
            min as nat,
        )),
{
    if value >= min {
        Ok(value)
    } else {
        let mut message = string_from_str(name);
        push_str(&mut message, " must be an integer >= ");
        push_decimal(&mut message, min as u64);
        Err(TpmsError::new(message))
    }
}

} // verus!
