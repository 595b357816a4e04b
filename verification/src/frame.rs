//! Frame definitions: which fields a frame has and how they are predicted.
use vstd::prelude::*;
use vstd::string::*;

use crate::error::{ErrorView, ParseError, ParseResult};
use crate::text::{
    after_prefix, optional_text, parse_unsigned, same_text, split, split_all, split_once,
    split_once_at, strip_prefix, texts, unsigned_value,
};

verus! {

/// The kinds of frames that carry data.
#[derive(Debug, Clone, Copy, PartialEq, Eq, Hash, Structural)]
pub enum DataFrameKind {
    Intra,
    Inter,
    Gps,
    GpsHome,
    Slow,
}

impl DataFrameKind {
    /// The kind's name.
    pub open spec fn spec_name(self) -> Seq<char> {
        match self {
            DataFrameKind::Intra => "intra"@,
            DataFrameKind::Inter => "inter"@,
            DataFrameKind::Gps => "GPS"@,
            DataFrameKind::GpsHome => "GPS home"@,
            DataFrameKind::Slow => "slow"@,
        }
    }

    /// The kind's name.
    pub fn name(&self) -> (name: &'static str)
        ensures
            name@ == self.spec_name(),
    {
        match self {
            DataFrameKind::Intra => "intra",
            DataFrameKind::Inter => "inter",
            DataFrameKind::Gps => "GPS",
            DataFrameKind::GpsHome => "GPS home",
            DataFrameKind::Slow => "slow",
        }
    }
}

/// What a header says of the fields of a frame.
#[derive(Debug, Clone, Copy, PartialEq, Eq, Hash, Structural)]
pub enum DefProperty {
    Name,
    Signed,
    Predictor,
    Encoding,
}

/// The value that a field's difference is added to.
#[derive(Debug, Clone, Copy, PartialEq, Eq, Hash, Structural)]
pub enum Predictor {
    Zero,
    Previous,
    StraightLine,
    Average2,
    MinThrottle,
    Motor0,
    Increment,
    HomeLat,
    HomeLon,
    FifteenHundred,
    VBatReference,
    LastMainFrameTime,
    MinMotor,
}

/// How a field's difference is written.
#[derive(Debug, Clone, Copy, PartialEq, Eq, Hash, Structural)]
pub enum Encoding {
    SignedVariable,
    UnsignedVariable,
    Negative14Bit,
    Tagged8SignedVariable,
    Tagged32,
    Tagged16,
    Null,
    Tagged32Variable,
}

/// What a field measures.
#[derive(Debug, Clone, Copy, PartialEq, Eq, Hash, Structural)]
pub enum Unit {
    Acceleration,
    AngularVelocity,
    ElectricCurrent,
    ElectricPotential,
    Velocity,
    FlightMode,
    Unitless,
}

/// The frame and the property that a header `Field <frame> <property>` is about.
pub open spec fn frame_def_header(header: Seq<char>) -> Option<(DataFrameKind, DefProperty)> {
    match after_prefix(header, "Field "@) {
        Some(rest) => match split_once_at(rest, ' ') {
            Some((letter, property)) => match (frame_of_letter(letter), property_of(property)) {
                (Some(kind), Some(property)) => Some((kind, property)),
                _ => None,
            },
            None => None,
        },
        None => None,
    }
}

/// The frame that a letter stands for.
pub open spec fn frame_of_letter(letter: Seq<char>) -> Option<DataFrameKind> {
    if letter == "I"@ {
        Some(DataFrameKind::Intra)
    } else if letter == "P"@ {
        Some(DataFrameKind::Inter)
    } else if letter == "G"@ {
        Some(DataFrameKind::Gps)
    } else if letter == "H"@ {
        Some(DataFrameKind::GpsHome)
    } else if letter == "S"@ {
        Some(DataFrameKind::Slow)
    } else {
        None
    }
}

/// The property of a name.
pub open spec fn property_of(name: Seq<char>) -> Option<DefProperty> {
    if name == "name"@ {
        Some(DefProperty::Name)
    } else if name == "signed"@ {
        Some(DefProperty::Signed)
    } else if name == "predictor"@ {
        Some(DefProperty::Predictor)
    } else if name == "encoding"@ {
        Some(DefProperty::Encoding)
    } else {
        None
    }
}

fn parse_frame_letter(letter: &str) -> (kind: Option<DataFrameKind>)
    ensures
        kind == frame_of_letter(letter@),
{
    if same_text(letter, "I") {
        Some(DataFrameKind::Intra)
    } else if same_text(letter, "P") {
        Some(DataFrameKind::Inter)
    } else if same_text(letter, "G") {
        Some(DataFrameKind::Gps)
    } else if same_text(letter, "H") {
        Some(DataFrameKind::GpsHome)
    } else if same_text(letter, "S") {
        Some(DataFrameKind::Slow)
    } else {
        None
    }
}

fn parse_property(name: &str) -> (property: Option<DefProperty>)
    ensures
        property == property_of(name@),
{
    if same_text(name, "name") {
        Some(DefProperty::Name)
    } else if same_text(name, "signed") {
        Some(DefProperty::Signed)
    } else if same_text(name, "predictor") {
        Some(DefProperty::Predictor)
    } else if same_text(name, "encoding") {
        Some(DefProperty::Encoding)
    } else {
        None
    }
}

/// Reads the name of a header that is about the fields of a frame.
pub fn parse_frame_def_header(header: &str) -> (parsed: Option<(DataFrameKind, DefProperty)>)
    ensures
        parsed == frame_def_header(header@),
{
    let rest = match strip_prefix(header, "Field ") {
        Some(rest) => rest,
        None => return None,
    };
    let (letter, property) = match split_once(rest, ' ') {
        Some(parts) => parts,
        None => return None,
    };
    match (parse_frame_letter(letter), parse_property(property)) {
        (Some(kind), Some(property)) => Some((kind, property)),
        _ => None,
    }
}

/// The predictor of a number. The second coordinate of a position is predicted by the longitude of
/// the home position, any other by its latitude.
pub open spec fn predictor_of(number: Option<nat>, name: Seq<char>) -> Option<Predictor> {
    match number {
        Some(n) => if n == 0 {
            Some(Predictor::Zero)
        } else if n == 1 {
            Some(Predictor::Previous)
        } else if n == 2 {
            Some(Predictor::StraightLine)
        } else if n == 3 {
            Some(Predictor::Average2)
        } else if n == 4 {
            Some(Predictor::MinThrottle)
        } else if n == 5 {
            Some(Predictor::Motor0)
        } else if n == 6 {
            Some(Predictor::Increment)
        } else if n == 7 {
            if name == "GPS_coord[1]"@ {
                Some(Predictor::HomeLon)
            } else {
                Some(Predictor::HomeLat)
            }
        } else if n == 8 {
            Some(Predictor::FifteenHundred)
        } else if n == 9 {
            Some(Predictor::VBatReference)
        } else if n == 10 {
            Some(Predictor::LastMainFrameTime)
        } else if n == 11 {
            Some(Predictor::MinMotor)
        } else {
            None
        },
        None => None,
    }
}

/// The encoding of a number.
pub open spec fn encoding_of(number: Option<nat>) -> Option<Encoding> {
    match number {
        Some(n) => if n == 0 {
            Some(Encoding::SignedVariable)
        } else if n == 1 {
            Some(Encoding::UnsignedVariable)
        } else if n == 3 {
            Some(Encoding::Negative14Bit)
        } else if n == 6 {
            Some(Encoding::Tagged8SignedVariable)
        } else if n == 7 {
            Some(Encoding::Tagged32)
        } else if n == 8 {
            Some(Encoding::Tagged16)
        } else if n == 9 {
            Some(Encoding::Null)
        } else if n == 10 {
            Some(Encoding::Tagged32Variable)
        } else {
            None
        },
        None => None,
    }
}

/// A field's name without its index.
pub open spec fn base_name(name: Seq<char>) -> Seq<char> {
    match split_once_at(name, '[') {
        Some((base, _)) => base,
        None => name,
    }
}

/// What a field of that name measures.
pub open spec fn unit_of(name: Seq<char>) -> Unit {
    let base = base_name(name);
    if base == "accSmooth"@ {
        Unit::Acceleration
    } else if base == "gyroADC"@ || base == "gyroUnfilt"@ {
        Unit::AngularVelocity
    } else if base == "amperageLatest"@ {
        Unit::ElectricCurrent
    } else if base == "vbatLatest"@ {
        Unit::ElectricPotential
    } else if base == "GPS_speed"@ {
        Unit::Velocity
    } else if base == "flightModeFlags"@ {
        Unit::FlightMode
    } else {
        Unit::Unitless
    }
}

fn parse_predictor(text: &str, name: &str) -> (predictor: Option<Predictor>)
    ensures
        predictor == predictor_of(unsigned_value(text@, 10, 255), name@),
{
    match parse_unsigned(text, 10, 255) {
        Some(n) => match n {
            0 => Some(Predictor::Zero),
            1 => Some(Predictor::Previous),
            2 => Some(Predictor::StraightLine),
            3 => Some(Predictor::Average2),
            4 => Some(Predictor::MinThrottle),
            5 => Some(Predictor::Motor0),
            6 => Some(Predictor::Increment),
            7 => if same_text(name, "GPS_coord[1]") {
                Some(Predictor::HomeLon)
            } else {
                Some(Predictor::HomeLat)
            },
            8 => Some(Predictor::FifteenHundred),
            9 => Some(Predictor::VBatReference),
            10 => Some(Predictor::LastMainFrameTime),
            11 => Some(Predictor::MinMotor),
            _ => None,
        },
        None => None,
    }
}

fn parse_encoding(text: &str) -> (encoding: Option<Encoding>)
    ensures
        encoding == encoding_of(unsigned_value(text@, 10, 255)),
{
    match parse_unsigned(text, 10, 255) {
        Some(n) => match n {
            0 => Some(Encoding::SignedVariable),
            1 => Some(Encoding::UnsignedVariable),
            3 => Some(Encoding::Negative14Bit),
            6 => Some(Encoding::Tagged8SignedVariable),
            7 => Some(Encoding::Tagged32),
            8 => Some(Encoding::Tagged16),
            9 => Some(Encoding::Null),
            10 => Some(Encoding::Tagged32Variable),
            _ => None,
        },
        None => None,
    }
}

fn field_unit(name: &str) -> (unit: Unit)
    ensures
        unit == unit_of(name@),
{
    let base = match split_once(name, '[') {
        Some((base, _)) => base,
        None => name,
    };
    if same_text(base, "accSmooth") {
        Unit::Acceleration
    } else if same_text(base, "gyroADC") || same_text(base, "gyroUnfilt") {
        Unit::AngularVelocity
    } else if same_text(base, "amperageLatest") {
        Unit::ElectricCurrent
    } else if same_text(base, "vbatLatest") {
        Unit::ElectricPotential
    } else if same_text(base, "GPS_speed") {
        Unit::Velocity
    } else if same_text(base, "flightModeFlags") {
        Unit::FlightMode
    } else {
        Unit::Unitless
    }
}

/// What a [`FieldDef`] says.
pub struct FieldView {
    pub name: Seq<char>,
    pub signed: bool,
    pub predictor: Predictor,
    pub encoding: Encoding,
    pub unit: Unit,
}

/// One field of a frame.
#[derive(Debug, Clone, Copy)]
pub struct FieldDef<'data> {
    pub name: &'data str,
    pub signed: bool,
    pub predictor: Predictor,
    pub encoding: Encoding,
    pub unit: Unit,
}

impl<'data> View for FieldDef<'data> {
    type V = FieldView;

    open spec fn view(&self) -> FieldView {
        FieldView {
            name: self.name@,
            signed: self.signed,
            predictor: self.predictor,
            encoding: self.encoding,
            unit: self.unit,
        }
    }
}

/// The fields of a frame, in order.
#[derive(Debug)]
pub struct FrameDef<'data> {
    pub fields: Vec<FieldDef<'data>>,
}

impl<'data> View for FrameDef<'data> {
    type V = Seq<FieldView>;

    open spec fn view(&self) -> Seq<FieldView> {
        self.fields@.map_values(|f: FieldDef| f@)
    }
}

impl<'data> Clone for FrameDef<'data> {
    fn clone(&self) -> (copy: Self)
        ensures
            copy@ == self@,
    {
        let copy = FrameDef { fields: self.fields.clone() };
        assert(copy@ =~= self@);
        copy
    }
}

pub type SlowFrameDef<'data> = FrameDef<'data>;

pub type GpsFrameDef<'data> = FrameDef<'data>;

pub type GpsHomeFrameDef<'data> = FrameDef<'data>;

/// The raw values of the headers about one frame.
pub struct BuilderView {
    pub names: Option<Seq<char>>,
    pub signs: Option<Seq<char>>,
    pub predictors: Option<Seq<char>>,
    pub encodings: Option<Seq<char>>,
}

impl BuilderView {
    /// No header seen yet.
    pub open spec fn empty() -> BuilderView {
        BuilderView { names: None, signs: None, predictors: None, encodings: None }
    }

    /// The last header of a property counts.
    pub open spec fn updated(self, property: DefProperty, value: Seq<char>) -> BuilderView {
        match property {
            DefProperty::Name => BuilderView { names: Some(value), ..self },
            DefProperty::Signed => BuilderView { signs: Some(value), ..self },
            DefProperty::Predictor => BuilderView { predictors: Some(value), ..self },
            DefProperty::Encoding => BuilderView { encodings: Some(value), ..self },
        }
    }

    /// The fields that the headers define. All four are needed; each is a list with commas in
    /// between, and the lists are of one length. A field is unsigned where its sign is `0`.
    pub open spec fn fields(self, kind: DataFrameKind) -> Result<Seq<FieldView>, ErrorView> {
        match (self.names, self.signs, self.predictors, self.encodings) {
            (Some(names), Some(signs), Some(predictors), Some(encodings)) => {
                let names = split_all(names, ',');
                let signs = split_all(signs, ',');
                let predictors = split_all(predictors, ',');
                let encodings = split_all(encodings, ',');
                if names.len() == signs.len() && names.len() == predictors.len() && names.len()
                    == encodings.len() && (forall|i: int|
                    0 <= i < names.len() ==> (#[trigger] field_of(
                        names[i],
                        signs[i],
                        predictors[i],
                        encodings[i],
                    )) is Some) {
                    Ok(
                        Seq::new(
                            names.len(),
                            |i: int|
                                field_of(names[i], signs[i], predictors[i], encodings[i]).unwrap(),
                        ),
                    )
                } else {
                    Err(ErrorView::MalformedFrameDef(kind))
                }
            },
            _ => Err(ErrorView::MissingHeader),
        }
    }

    /// The fields of a frame that a log can do without.
    pub open spec fn optional_fields(self, kind: DataFrameKind) -> Result<
        Option<Seq<FieldView>>,
        ErrorView,
    > {
        if self == Self::empty() {
            Ok(None)
        } else {
            match self.fields(kind) {
                Ok(fields) => Ok(Some(fields)),
                Err(e) => Err(e),
            }
        }
    }
}

/// One field out of the four lists.
pub open spec fn field_of(
    name: Seq<char>,
    sign: Seq<char>,
    predictor: Seq<char>,
    encoding: Seq<char>,
) -> Option<FieldView> {
    match (
        predictor_of(unsigned_value(predictor, 10, 255), name),
        encoding_of(unsigned_value(encoding, 10, 255)),
    ) {
        (Some(predictor), Some(encoding)) => Some(
            FieldView { name, signed: sign != "0"@, predictor, encoding, unit: unit_of(name) },
        ),
        _ => None,
    }
}

fn parse_field<'data>(name: &'data str, sign: &str, predictor: &str, encoding: &str) -> (field:
    Option<FieldDef<'data>>)
    ensures
        match field {
            Some(field) => field_of(name@, sign@, predictor@, encoding@) == Some(field@),
            None => field_of(name@, sign@, predictor@, encoding@) is None,
        },
{
    match (parse_predictor(predictor, name), parse_encoding(encoding)) {
        (Some(predictor), Some(encoding)) => Some(
            FieldDef {
                name,
                signed: !same_text(sign, "0"),
                predictor,
                encoding,
                unit: field_unit(name),
            },
        ),
        _ => None,
    }
}

/// Collects the headers about one frame.
#[derive(Debug, Clone, Copy)]
pub struct FrameDefBuilder<'data> {
    pub names: Option<&'data str>,
    pub signs: Option<&'data str>,
    pub predictors: Option<&'data str>,
    pub encodings: Option<&'data str>,
}

impl<'data> View for FrameDefBuilder<'data> {
    type V = BuilderView;

    open spec fn view(&self) -> BuilderView {
        BuilderView {
            names: optional_text(self.names),
            signs: optional_text(self.signs),
            predictors: optional_text(self.predictors),
            encodings: optional_text(self.encodings),
        }
    }
}

impl<'data> FrameDefBuilder<'data> {
    /// No header seen yet.
    pub fn new() -> (builder: Self)
        ensures
            builder@ == BuilderView::empty(),
    {
        FrameDefBuilder { names: None, signs: None, predictors: None, encodings: None }
    }

    /// Takes in the header of one property.
    pub fn update(&mut self, property: DefProperty, value: &'data str)
        ensures
            final(self)@ == old(self)@.updated(property, value@),
    {
        match property {
            DefProperty::Name => {
                self.names = Some(value);
            },
            DefProperty::Signed => {
                self.signs = Some(value);
            },
            DefProperty::Predictor => {
                self.predictors = Some(value);
            },
            DefProperty::Encoding => {
                self.encodings = Some(value);
            },
        }
    }

    /// The definition of a frame that every log has.
    pub fn parse(self, kind: DataFrameKind) -> (def: ParseResult<FrameDef<'data>>)
        ensures
            match def {
                Ok(def) => self@.fields(kind) == Ok::<Seq<FieldView>, ErrorView>(def@),
                Err(e) => self@.fields(kind) == Err::<Seq<FieldView>, ErrorView>(e@),
            },
    {
        let (names, signs, predictors, encodings) = match (
            self.names,
            self.signs,
            self.predictors,
            self.encodings,
        ) {
            (Some(names), Some(signs), Some(predictors), Some(encodings)) => (
                split(names, ','),
                split(signs, ','),
                split(predictors, ','),
                split(encodings, ','),
            ),
            _ => return Err(ParseError::MissingHeader),
        };
        let ghost n = texts(names@);
        let ghost s = texts(signs@);
        let ghost p = texts(predictors@);
        let ghost e = texts(encodings@);
        assert(n == split_all(self@.names.unwrap(), ','));
        assert(s == split_all(self@.signs.unwrap(), ','));
        assert(p == split_all(self@.predictors.unwrap(), ','));
        assert(e == split_all(self@.encodings.unwrap(), ','));
        if names.len() != signs.len() || names.len() != predictors.len() || names.len()
            != encodings.len() {
            return Err(ParseError::MalformedFrameDef(kind));
        }
        let mut fields: Vec<FieldDef<'data>> = Vec::new();
        let mut i: usize = 0;
        while i < names.len()
            invariant
                i <= names@.len(),
                names@.len() == signs@.len(),
                names@.len() == predictors@.len(),
                names@.len() == encodings@.len(),
                n == texts(names@),
                s == texts(signs@),
                p == texts(predictors@),
                e == texts(encodings@),
                n == split_all(self@.names.unwrap(), ','),
                s == split_all(self@.signs.unwrap(), ','),
                p == split_all(self@.predictors.unwrap(), ','),
                e == split_all(self@.encodings.unwrap(), ','),
                self@.names is Some,
                self@.signs is Some,
                self@.predictors is Some,
                self@.encodings is Some,
                fields@.len() == i,
                forall|j: int|
                    0 <= j < i ==> #[trigger] field_of(n[j], s[j], p[j], e[j]) == Some(
                        fields@[j]@,
                    ),
            decreases names@.len() - i,
        {
            match parse_field(names[i], signs[i], predictors[i], encodings[i]) {
                Some(field) => {
                    fields.push(field);
                },
                None => {
                    assert(field_of(n[i as int], s[i as int], p[i as int], e[i as int]) is None);
                    return Err(ParseError::MalformedFrameDef(kind));
                },
            }
            i += 1;
        }
        let def = FrameDef { fields };
        proof {
            assert forall|j: int| 0 <= j < n.len() implies (#[trigger] field_of(
                n[j],
                s[j],
                p[j],
                e[j],
            )) is Some by {}
            assert(def@ =~= Seq::new(
                n.len(),
                |i: int| field_of(n[i], s[i], p[i], e[i]).unwrap(),
            ));
        }
        Ok(def)
    }

    /// The definition of a frame that a log can do without.
    pub fn parse_optional(self, kind: DataFrameKind) -> (def: ParseResult<Option<FrameDef<'data>>>)
        ensures
            match def {
                Ok(Some(def)) => self@.optional_fields(kind) == Ok::<
                    Option<Seq<FieldView>>,
                    ErrorView,
                >(Some(def@)),
                Ok(None) => self@.optional_fields(kind) == Ok::<Option<Seq<FieldView>>, ErrorView>(
                    None,
                ),
                Err(e) => self@.optional_fields(kind) == Err::<Option<Seq<FieldView>>, ErrorView>(
                    e@,
                ),
            },
    {
        if self.names.is_none() && self.signs.is_none() && self.predictors.is_none()
            && self.encodings.is_none() {
            return Ok(None);
        }
        match self.parse(kind) {
            Ok(def) => Ok(Some(def)),
            Err(e) => Err(e),
        }
    }
}

/// The headers about the two kinds of main frames.
pub struct MainBuilderView {
    pub intra: BuilderView,
    pub inter: BuilderView,
}

/// What a [`MainFrameDef`] says.
pub struct MainDefView {
    pub intra: Seq<FieldView>,
    pub inter: Seq<FieldView>,
}

impl MainBuilderView {
    /// No header seen yet.
    pub open spec fn empty() -> MainBuilderView {
        MainBuilderView { intra: BuilderView::empty(), inter: BuilderView::empty() }
    }

    /// The last header of a property of a frame counts.
    pub open spec fn updated(
        self,
        kind: DataFrameKind,
        property: DefProperty,
        value: Seq<char>,
    ) -> MainBuilderView {
        match kind {
            DataFrameKind::Intra => MainBuilderView {
                intra: self.intra.updated(property, value),
                ..self
            },
            DataFrameKind::Inter => MainBuilderView {
                inter: self.inter.updated(property, value),
                ..self
            },
            _ => self,
        }
    }

    /// The headers about the inter frame, whose fields are those of the intra frame.
    pub open spec fn inter_headers(self) -> BuilderView {
        BuilderView { names: self.intra.names, signs: self.intra.signs, ..self.inter }
    }

    /// The fields that the headers define. The first is `loopIteration`, the second is `time`.
    pub open spec fn fields(self) -> Result<MainDefView, ErrorView> {
        match self.intra.fields(DataFrameKind::Intra) {
            Err(e) => Err(e),
            Ok(intra) => if intra.len() < 1 || intra[0].name != "loopIteration"@ {
                Err(
                    ErrorView::MissingField {
                        frame: DataFrameKind::Intra,
                        field: "loopIteration"@,
                    },
                )
            } else if intra.len() < 2 || intra[1].name != "time"@ {
                Err(ErrorView::MissingField { frame: DataFrameKind::Intra, field: "time"@ })
            } else {
                match self.inter_headers().fields(DataFrameKind::Inter) {
                    Err(e) => Err(e),
                    Ok(inter) => Ok(MainDefView { intra, inter }),
                }
            },
        }
    }
}

/// The fields of the main frames, in order: those of an intra frame, and the same fields as an inter
/// frame has them.
#[derive(Debug)]
pub struct MainFrameDef<'data> {
    pub intra: FrameDef<'data>,
    pub inter: FrameDef<'data>,
}

impl<'data> View for MainFrameDef<'data> {
    type V = MainDefView;

    open spec fn view(&self) -> MainDefView {
        MainDefView { intra: self.intra@, inter: self.inter@ }
    }
}

impl<'data> Clone for MainFrameDef<'data> {
    fn clone(&self) -> (copy: Self)
        ensures
            copy@ == self@,
    {
        MainFrameDef { intra: self.intra.clone(), inter: self.inter.clone() }
    }
}

/// Collects the headers about the main frames.
#[derive(Debug, Clone, Copy)]
pub struct MainFrameDefBuilder<'data> {
    pub intra: FrameDefBuilder<'data>,
    pub inter: FrameDefBuilder<'data>,
}

impl<'data> View for MainFrameDefBuilder<'data> {
    type V = MainBuilderView;

    open spec fn view(&self) -> MainBuilderView {
        MainBuilderView { intra: self.intra@, inter: self.inter@ }
    }
}

impl<'data> MainFrameDefBuilder<'data> {
    /// No header seen yet.
    pub fn new() -> (builder: Self)
        ensures
            builder@ == MainBuilderView::empty(),
    {
        MainFrameDefBuilder { intra: FrameDefBuilder::new(), inter: FrameDefBuilder::new() }
    }

    /// Takes in the header of one property of one of the main frames.
    pub fn update(&mut self, kind: DataFrameKind, property: DefProperty, value: &'data str)
        ensures
            final(self)@ == old(self)@.updated(kind, property, value@),
    {
        match kind {
            DataFrameKind::Intra => self.intra.update(property, value),
            DataFrameKind::Inter => self.inter.update(property, value),
            _ => {},
        }
    }

    /// The definition of the main frames.
    pub fn parse(self) -> (def: ParseResult<MainFrameDef<'data>>)
        ensures
            match def {
                Ok(def) => self@.fields() == Ok::<MainDefView, ErrorView>(def@),
                Err(e) => self@.fields() == Err::<MainDefView, ErrorView>(e@),
            },
    {
        let intra = match self.intra.parse(DataFrameKind::Intra) {
            Ok(intra) => intra,
            Err(e) => return Err(e),
        };
        if intra.fields.len() < 1 || !same_text(intra.fields[0].name, "loopIteration") {
            return Err(
                ParseError::MissingField {
                    frame: DataFrameKind::Intra,
                    field: "loopIteration".to_owned(),
                },
            );
        }
        if intra.fields.len() < 2 || !same_text(intra.fields[1].name, "time") {
            return Err(
                ParseError::MissingField { frame: DataFrameKind::Intra, field: "time".to_owned() },
            );
        }
        let headers = FrameDefBuilder {
            names: self.intra.names,
            signs: self.intra.signs,
            predictors: self.inter.predictors,
            encodings: self.inter.encodings,
        };
        assert(headers@ == self@.inter_headers());
        match headers.parse(DataFrameKind::Inter) {
            Ok(inter) => Ok(MainFrameDef { intra, inter }),
            Err(e) => Err(e),
        }
    }
}

/// Where a field of that name first stands, from the field `from` on.
pub open spec fn field_position(fields: Seq<FieldView>, name: Seq<char>, from: nat) -> Option<nat>
    decreases fields.len() - from,
{
    if from >= fields.len() {
        None
    } else if fields[from as int].name == name {
        Some(from)
    } else {
        field_position(fields, name, from + 1)
    }
}

impl MainDefView {
    /// Where the field of the first motor stands.
    pub open spec fn motor_0(self) -> Option<nat> {
        field_position(self.intra, "motor[0]"@, 0)
    }
}

/// What a prediction or a unit can draw on.
#[derive(Debug, Clone, Copy)]
pub struct Available {
    /// Whether the accelerometer's calibration is known.
    pub acceleration_1g: bool,
    /// Whether the lowest throttle is known.
    pub min_throttle: bool,
    /// Where the first motor stands among the fields of the main frames.
    pub motor_0: Option<usize>,
    /// Whether the battery voltage at arming is known.
    pub vbat_reference: bool,
    /// Whether the range of the motor outputs is known.
    pub motor_output_range: bool,
    /// Whether the log has frames with the home position.
    pub gps_home: bool,
}

/// What an [`Available`] says.
pub struct AvailableView {
    pub acceleration_1g: bool,
    pub min_throttle: bool,
    pub motor_0: Option<nat>,
    pub vbat_reference: bool,
    pub motor_output_range: bool,
    pub gps_home: bool,
}

impl View for Available {
    type V = AvailableView;

    open spec fn view(&self) -> AvailableView {
        AvailableView {
            acceleration_1g: self.acceleration_1g,
            min_throttle: self.min_throttle,
            motor_0: match self.motor_0 {
                Some(i) => Some(i as nat),
                None => None,
            },
            vbat_reference: self.vbat_reference,
            motor_output_range: self.motor_output_range,
            gps_home: self.gps_home,
        }
    }
}

impl AvailableView {
    /// Whether the field at `index` can be predicted so.
    pub open spec fn predicts(self, predictor: Predictor, index: nat) -> bool {
        match predictor {
            Predictor::MinThrottle => self.min_throttle,
            Predictor::Motor0 => match self.motor_0 {
                Some(motor_0) => index > motor_0,
                None => false,
            },
            Predictor::HomeLat => self.gps_home,
            Predictor::HomeLon => self.gps_home,
            Predictor::VBatReference => self.vbat_reference,
            Predictor::MinMotor => self.motor_output_range,
            _ => true,
        }
    }

    /// Whether values in that unit can be told.
    pub open spec fn measures(self, unit: Unit) -> bool {
        unit == Unit::Acceleration ==> self.acceleration_1g
    }

    /// Whether every field can be read.
    pub open spec fn suffices(self, fields: Seq<FieldView>) -> bool {
        forall|i: int|
            0 <= i < fields.len() ==> self.predicts((#[trigger] fields[i]).predictor, i as nat)
                && self.measures(fields[i].unit)
    }
}

impl Available {
    fn can_predict(&self, predictor: Predictor, index: usize) -> (yes: bool)
        ensures
            yes == self@.predicts(predictor, index as nat),
    {
        match predictor {
            Predictor::MinThrottle => self.min_throttle,
            Predictor::Motor0 => match self.motor_0 {
                Some(motor_0) => index > motor_0,
                None => false,
            },
            Predictor::HomeLat | Predictor::HomeLon => self.gps_home,
            Predictor::VBatReference => self.vbat_reference,
            Predictor::MinMotor => self.motor_output_range,
            Predictor::Zero
            | Predictor::Previous
            | Predictor::StraightLine
            | Predictor::Average2
            | Predictor::Increment
            | Predictor::FifteenHundred
            | Predictor::LastMainFrameTime => true,
        }
    }

    fn can_measure(&self, unit: Unit) -> (yes: bool)
        ensures
            yes == self@.measures(unit),
    {
        unit != Unit::Acceleration || self.acceleration_1g
    }
}

impl<'data> FrameDef<'data> {
    /// Checks that every field can be read with what is available.
    pub fn validate(&self, kind: DataFrameKind, available: Available) -> (valid: ParseResult<()>)
        ensures
            match valid {
                Ok(_) => available@.suffices(self@),
                Err(e) => !available@.suffices(self@) && e@ == ErrorView::MalformedFrameDef(kind),
            },
    {
        let mut i: usize = 0;
        while i < self.fields.len()
            invariant
                i <= self.fields@.len(),
                forall|j: int|
                    0 <= j < i ==> available@.predicts((#[trigger] self@[j]).predictor, j as nat)
                        && available@.measures(self@[j].unit),
            decreases self.fields@.len() - i,
        {
            let field = self.fields[i];
            assert(self@[i as int] == field@);
            if !available.can_predict(field.predictor, i) || !available.can_measure(field.unit) {
                return Err(ParseError::MalformedFrameDef(kind));
            }
            i += 1;
        }
        Ok(())
    }

    /// Where a field of that name first stands.
    pub fn position(&self, name: &str) -> (at: Option<usize>)
        ensures
            match at {
                Some(i) => field_position(self@, name@, 0) == Some(i as nat),
                None => field_position(self@, name@, 0) is None,
            },
    {
        let mut i: usize = 0;
        while i < self.fields.len()
            invariant
                i <= self.fields@.len(),
                field_position(self@, name@, 0) == field_position(self@, name@, i as nat),
            decreases self.fields@.len() - i,
        {
            assert(self@[i as int] == self.fields@[i as int]@);
            if same_text(self.fields[i].name, name) {
                return Some(i);
            }
            i += 1;
        }
        None
    }
}

impl<'data> MainFrameDef<'data> {
    /// Where the field of the first motor stands.
    pub fn index_motor_0(&self) -> (at: Option<usize>)
        ensures
            match at {
                Some(i) => self@.motor_0() == Some(i as nat),
                None => self@.motor_0() is None,
            },
    {
        self.intra.position("motor[0]")
    }

    /// Checks that every field can be read with what is available, in intra frames and then in
    /// inter frames.
    pub fn validate(&self, available: Available) -> (valid: ParseResult<()>)
        ensures
            match valid {
                Ok(_) => available@.suffices(self@.intra) && available@.suffices(self@.inter),
                Err(e) => e@ == ErrorView::MalformedFrameDef(
                    if available@.suffices(self@.intra) {
                        DataFrameKind::Inter
                    } else {
                        DataFrameKind::Intra
                    },
                ) && !(available@.suffices(self@.intra) && available@.suffices(self@.inter)),
            },
    {
        match self.intra.validate(DataFrameKind::Intra, available) {
            Ok(_) => self.inter.validate(DataFrameKind::Inter, available),
            Err(e) => Err(e),
        }
    }
}

/// The fields of an inter frame are those of the intra frame, by name, sign and unit.
pub proof fn main_frames_share_fields(headers: MainBuilderView)
    ensures
        headers.fields() matches Ok(def) ==> {
            &&& def.intra.len() == def.inter.len()
            &&& def.intra[0].name == "loopIteration"@
            &&& def.intra[1].name == "time"@
            &&& forall|i: int|
                0 <= i < def.intra.len() ==> {
                    &&& (#[trigger] def.intra[i]).name == def.inter[i].name
                    &&& def.intra[i].signed == def.inter[i].signed
                    &&& def.intra[i].unit == def.inter[i].unit
                }
        },
{
    if headers.fields() is Ok {
        let names = split_all(headers.intra.names.unwrap(), ',');
        let signs = split_all(headers.intra.signs.unwrap(), ',');
        let p = split_all(headers.intra.predictors.unwrap(), ',');
        let e = split_all(headers.intra.encodings.unwrap(), ',');
        let inter = headers.inter_headers();
        let q = split_all(inter.predictors.unwrap(), ',');
        let f = split_all(inter.encodings.unwrap(), ',');
        let def = headers.fields()->Ok_0;
        assert forall|i: int| 0 <= i < def.intra.len() implies {
            &&& (#[trigger] def.intra[i]).name == def.inter[i].name
            &&& def.intra[i].signed == def.inter[i].signed
            &&& def.intra[i].unit == def.inter[i].unit
        } by {
            assert(field_of(names[i], signs[i], p[i], e[i]) is Some);
            assert(field_of(names[i], signs[i], q[i], f[i]) is Some);
        }
    }
}

} // verus!
