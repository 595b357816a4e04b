//! What holds of the definitions of frames.
use vstd::prelude::*;
use vstd::string::*;

use crate::error::ErrorView;
use crate::frame::{
    encoding_of, field_of, frame_def_header, frame_of_letter, predictor_of, property_of, unit_of,
    BuilderView, DataFrameKind, DefProperty, Encoding, FieldView, MainBuilderView, MainDefView,
    Predictor, Unit,
};
use crate::text::{split_all, split_once_at, split_once_at_first, unsigned_value};
use crate::text_laws::{prefix_is_stripped, split_once_at_parts};

verus! {

/// The letter that headers write for a frame.
pub open spec fn frame_letter(kind: DataFrameKind) -> char {
    match kind {
        DataFrameKind::Intra => 'I',
        DataFrameKind::Inter => 'P',
        DataFrameKind::Gps => 'G',
        DataFrameKind::GpsHome => 'H',
        DataFrameKind::Slow => 'S',
    }
}

/// The word that headers write for a property.
pub open spec fn property_word(property: DefProperty) -> Seq<char> {
    match property {
        DefProperty::Name => "name"@,
        DefProperty::Signed => "signed"@,
        DefProperty::Predictor => "predictor"@,
        DefProperty::Encoding => "encoding"@,
    }
}

/// The name of the header about one property of one frame.
pub open spec fn frame_header_name(kind: DataFrameKind, property: DefProperty) -> Seq<char> {
    "Field "@ + seq![frame_letter(kind)] + " "@ + property_word(property)
}

proof fn letters_and_words()
    ensures
        "I"@ == seq!['I'],
        "P"@ == seq!['P'],
        "G"@ == seq!['G'],
        "H"@ == seq!['H'],
        "S"@ == seq!['S'],
        " "@ == seq![' '],
        "name"@.len() == 4,
        "signed"@.len() == 6,
        "predictor"@.len() == 9,
        "encoding"@.len() == 8,
{
    reveal_strlit("I");
    reveal_strlit("P");
    reveal_strlit("G");
    reveal_strlit("H");
    reveal_strlit("S");
    reveal_strlit(" ");
    reveal_strlit("name");
    reveal_strlit("signed");
    reveal_strlit("predictor");
    reveal_strlit("encoding");
    assert("I"@ =~= seq!['I']);
    assert("P"@ =~= seq!['P']);
    assert("G"@ =~= seq!['G']);
    assert("H"@ =~= seq!['H']);
    assert("S"@ =~= seq!['S']);
    assert(" "@ =~= seq![' ']);
}

proof fn letters_read_back(letter: Seq<char>, kind: DataFrameKind)
    ensures
        frame_of_letter(letter) == Some(kind) <==> letter == seq![frame_letter(kind)],
{
    letters_and_words();
    assert(seq!['I'][0] == 'I');
    assert(seq!['P'][0] == 'P');
    assert(seq!['G'][0] == 'G');
    assert(seq!['H'][0] == 'H');
    assert(seq!['S'][0] == 'S');
}

proof fn words_read_back(word: Seq<char>, property: DefProperty)
    ensures
        property_of(word) == Some(property) <==> word == property_word(property),
{
    letters_and_words();
}

/// A header is about a property of a frame if and only if it has the name of that header.
pub proof fn frame_headers_have_names(
    header: Seq<char>,
    kind: DataFrameKind,
    property: DefProperty,
)
    ensures
        frame_def_header(header) == Some((kind, property)) <==> header == frame_header_name(
            kind,
            property,
        ),
{
    letters_and_words();
    let letter = seq![frame_letter(kind)];
    let word = property_word(property);
    letters_read_back(letter, kind);
    words_read_back(word, property);
    if header == frame_header_name(kind, property) {
        let rest = letter.push(' ') + word;
        assert(header =~= "Field "@ + rest);
        prefix_is_stripped(rest, "Field "@);
        assert forall|i: int| 0 <= i < letter.len() implies letter[i] != ' ' by {}
        split_once_at_first(letter, word, ' ');
    }
    if frame_def_header(header) == Some((kind, property)) {
        prefix_is_stripped(header, "Field "@);
        let rest = crate::text::after_prefix(header, "Field "@).unwrap();
        split_once_at_parts(rest, ' ');
        let (a, b) = split_once_at(rest, ' ').unwrap();
        letters_read_back(a, kind);
        words_read_back(b, property);
        assert(header =~= frame_header_name(kind, property));
    }
}

/// The number that headers write for a predictor.
pub open spec fn predictor_number(predictor: Predictor) -> nat {
    match predictor {
        Predictor::Zero => 0,
        Predictor::Previous => 1,
        Predictor::StraightLine => 2,
        Predictor::Average2 => 3,
        Predictor::MinThrottle => 4,
        Predictor::Motor0 => 5,
        Predictor::Increment => 6,
        Predictor::HomeLat | Predictor::HomeLon => 7,
        Predictor::FifteenHundred => 8,
        Predictor::VBatReference => 9,
        Predictor::LastMainFrameTime => 10,
        Predictor::MinMotor => 11,
    }
}

/// The number that headers write for an encoding.
pub open spec fn encoding_number(encoding: Encoding) -> nat {
    match encoding {
        Encoding::SignedVariable => 0,
        Encoding::UnsignedVariable => 1,
        Encoding::Negative14Bit => 3,
        Encoding::Tagged8SignedVariable => 6,
        Encoding::Tagged32 => 7,
        Encoding::Tagged16 => 8,
        Encoding::Null => 9,
        Encoding::Tagged32Variable => 10,
    }
}

/// A predictor is read if and only if its number is written. Of the two that share a number, the
/// longitude of the home position predicts the second coordinate and its latitude any other field.
pub proof fn predictors_have_numbers(n: nat, name: Seq<char>, predictor: Predictor)
    ensures
        predictor_of(Some(n), name) == Some(predictor) <==> predictor_number(predictor) == n && (
        predictor == Predictor::HomeLon ==> name == "GPS_coord[1]"@) && (predictor
            == Predictor::HomeLat ==> name != "GPS_coord[1]"@),
        predictor_of(Some(n), name) is None <==> n > 11,
        predictor_of(None, name) is None,
{
}

/// An encoding is read if and only if its number is written.
pub proof fn encodings_have_numbers(n: nat, encoding: Encoding)
    ensures
        encoding_of(Some(n)) == Some(encoding) <==> encoding_number(encoding) == n,
        encoding_of(Some(n)) is None <==> n == 2 || n == 4 || n == 5 || n > 10,
        encoding_of(None) is None,
{
}

/// What a field measures goes by its name, and is the same for every index behind the name.
pub proof fn units_ignore_indices(base: Seq<char>, index: Seq<char>)
    requires
        !base.contains('['),
    ensures
        unit_of(base.push('[') + index) == unit_of(base),
        unit_of(base) == Unit::Acceleration <==> base == "accSmooth"@,
        unit_of(base) == Unit::AngularVelocity <==> base == "gyroADC"@ || base == "gyroUnfilt"@,
        unit_of(base) == Unit::ElectricCurrent <==> base == "amperageLatest"@,
        unit_of(base) == Unit::ElectricPotential <==> base == "vbatLatest"@,
        unit_of(base) == Unit::Velocity <==> base == "GPS_speed"@,
        unit_of(base) == Unit::FlightMode <==> base == "flightModeFlags"@,
{
    reveal_strlit("accSmooth");
    reveal_strlit("gyroADC");
    reveal_strlit("gyroUnfilt");
    reveal_strlit("amperageLatest");
    reveal_strlit("vbatLatest");
    reveal_strlit("GPS_speed");
    reveal_strlit("flightModeFlags");
    assert("accSmooth"@.len() == 9 && "accSmooth"@[0] == 'a');
    assert("gyroADC"@.len() == 7);
    assert("gyroUnfilt"@.len() == 10 && "gyroUnfilt"@[0] == 'g');
    assert("amperageLatest"@.len() == 14);
    assert("vbatLatest"@.len() == 10 && "vbatLatest"@[0] == 'v');
    assert("GPS_speed"@.len() == 9 && "GPS_speed"@[0] == 'G');
    assert("flightModeFlags"@.len() == 15);
    assert forall|i: int| 0 <= i < base.len() implies base[i] != '[' by {
        assert(base.contains(base[i]));
    }
    split_once_at_first(base, index, '[');
    split_once_at_parts(base, '[');
    match split_once_at(base, '[') {
        Some((a, b)) => {
            assert(base[a.len() as int] == '[');
        },
        None => {},
    }
}

/// Whether a field is what the four lists say at one place.
pub open spec fn field_says(
    field: FieldView,
    name: Seq<char>,
    sign: Seq<char>,
    predictor: Seq<char>,
    encoding: Seq<char>,
) -> bool {
    &&& field.name == name
    &&& field.signed <==> sign != "0"@
    &&& unsigned_value(predictor, 10, 255) == Some(predictor_number(field.predictor))
    &&& field.predictor == Predictor::HomeLon ==> name == "GPS_coord[1]"@
    &&& field.predictor == Predictor::HomeLat ==> name != "GPS_coord[1]"@
    &&& unsigned_value(encoding, 10, 255) == Some(encoding_number(field.encoding))
    &&& field.unit == unit_of(name)
}

/// Whether a predictor and an encoding are numbers of known ones.
pub open spec fn known_numbers(predictor: Seq<char>, encoding: Seq<char>) -> bool {
    &&& unsigned_value(predictor, 10, 255) matches Some(p) && p <= 11
    &&& unsigned_value(encoding, 10, 255) matches Some(e) && (e <= 1 || e == 3 || 6 <= e <= 10)
}

proof fn fields_say(name: Seq<char>, sign: Seq<char>, predictor: Seq<char>, encoding: Seq<char>)
    ensures
        field_of(name, sign, predictor, encoding) is Some <==> known_numbers(predictor, encoding),
        field_of(name, sign, predictor, encoding) matches Some(field) ==> field_says(
            field,
            name,
            sign,
            predictor,
            encoding,
        ),
{
}

/// The four lists of a frame give one field for each place. Where a list is missing a header is
/// missing; where the lists are of different lengths, or one holds an unknown number, the definition
/// is malformed.
pub proof fn fields_are_columns(headers: BuilderView, kind: DataFrameKind)
    ensures
        headers.names is None || headers.signs is None || headers.predictors is None
            || headers.encodings is None ==> headers.fields(kind) == Err::<
            Seq<FieldView>,
            ErrorView,
        >(ErrorView::MissingHeader),
        headers.names is Some && headers.signs is Some && headers.predictors is Some
            && headers.encodings is Some ==> ({
            let names = split_all(headers.names.unwrap(), ',');
            let signs = split_all(headers.signs.unwrap(), ',');
            let predictors = split_all(headers.predictors.unwrap(), ',');
            let encodings = split_all(headers.encodings.unwrap(), ',');
            let good = signs.len() == names.len() && predictors.len() == names.len()
                && encodings.len() == names.len() && forall|i: int|
                0 <= i < names.len() ==> known_numbers(#[trigger] predictors[i], encodings[i]);
            if good {
                headers.fields(kind) matches Ok(fields) && fields.len() == names.len() && forall|
                    i: int,
                |
                    0 <= i < names.len() ==> field_says(
                        #[trigger] fields[i],
                        names[i],
                        signs[i],
                        predictors[i],
                        encodings[i],
                    )
            } else {
                headers.fields(kind) == Err::<Seq<FieldView>, ErrorView>(
                    ErrorView::MalformedFrameDef(kind),
                )
            }
        }),
{
    if headers.names is Some && headers.signs is Some && headers.predictors is Some
        && headers.encodings is Some {
        let names = split_all(headers.names.unwrap(), ',');
        let signs = split_all(headers.signs.unwrap(), ',');
        let predictors = split_all(headers.predictors.unwrap(), ',');
        let encodings = split_all(headers.encodings.unwrap(), ',');
        if signs.len() == names.len() && predictors.len() == names.len() && encodings.len()
            == names.len() {
            assert forall|i: int| 0 <= i < names.len() implies (field_of(
                names[i],
                signs[i],
                predictors[i],
                encodings[i],
            ) is Some <==> known_numbers(#[trigger] predictors[i], encodings[i])) && (field_of(
                names[i],
                signs[i],
                predictors[i],
                encodings[i],
            ) matches Some(field) ==> field_says(
                field,
                names[i],
                signs[i],
                predictors[i],
                encodings[i],
            )) by {
                fields_say(names[i], signs[i], predictors[i], encodings[i]);
            }
            if forall|i: int|
                0 <= i < names.len() ==> known_numbers(#[trigger] predictors[i], encodings[i]) {
                assert forall|i: int| 0 <= i < names.len() implies (#[trigger] field_of(
                    names[i],
                    signs[i],
                    predictors[i],
                    encodings[i],
                )) is Some by {
                    assert(known_numbers(predictors[i], encodings[i]));
                }
                let fields = headers.fields(kind)->Ok_0;
                assert forall|i: int| 0 <= i < names.len() implies field_says(
                    #[trigger] fields[i],
                    names[i],
                    signs[i],
                    predictors[i],
                    encodings[i],
                ) by {
                    assert(known_numbers(predictors[i], encodings[i]));
                }
            } else {
                let i = choose|i: int|
                    0 <= i < names.len() && !known_numbers(#[trigger] predictors[i], encodings[i]);
                assert(field_of(names[i], signs[i], predictors[i], encodings[i]) is None);
            }
        }
    }
}

/// A frame that a log can do without is absent if and only if no header is about it.
pub proof fn optional_frames_are_absent_without_headers(headers: BuilderView, kind: DataFrameKind)
    ensures
        headers.optional_fields(kind) == Ok::<Option<Seq<FieldView>>, ErrorView>(None)
            <==> headers.names is None && headers.signs is None && headers.predictors is None
            && headers.encodings is None,
        !(headers.names is None && headers.signs is None && headers.predictors is None
            && headers.encodings is None) ==> match headers.fields(kind) {
            Ok(fields) => headers.optional_fields(kind) == Ok::<
                Option<Seq<FieldView>>,
                ErrorView,
            >(Some(fields)),
            Err(e) => headers.optional_fields(kind) == Err::<Option<Seq<FieldView>>, ErrorView>(e),
        },
{
}

/// The main frames are read from the headers about intra frames, and from those about the predictors
/// and encodings of inter frames. They start with `loopIteration` and `time`.
pub proof fn main_frames_are_two_definitions(headers: MainBuilderView)
    ensures
        ({
            let inter_headers = BuilderView {
                names: headers.intra.names,
                signs: headers.intra.signs,
                predictors: headers.inter.predictors,
                encodings: headers.inter.encodings,
            };
            match headers.intra.fields(DataFrameKind::Intra) {
                Err(e) => headers.fields() == Err::<MainDefView, ErrorView>(e),
                Ok(intra) => if intra.len() >= 1 && intra[0].name == "loopIteration"@ && intra.len()
                    >= 2 && intra[1].name == "time"@ {
                    match inter_headers.fields(DataFrameKind::Inter) {
                        Err(e) => headers.fields() == Err::<MainDefView, ErrorView>(e),
                        Ok(inter) => headers.fields() == Ok::<MainDefView, ErrorView>(
                            MainDefView { intra, inter },
                        ),
                    }
                } else {
                    headers.fields() == Err::<MainDefView, ErrorView>(
                        ErrorView::MissingField {
                            frame: DataFrameKind::Intra,
                            field: if intra.len() >= 1 && intra[0].name == "loopIteration"@ {
                                "time"@
                            } else {
                                "loopIteration"@
                            },
                        },
                    )
                },
            }
        }),
{
}

} // verus!
