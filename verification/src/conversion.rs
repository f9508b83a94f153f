//! Stored planet records and their wire messages, and the way from the one
//! to the other.

use crate::calendar::CalendarDate;
use crate::error::ConversionError;
use crate::text::same_text;
use vstd::prelude::*;
use vstd::std_specs::convert::FromSpecImpl;
use vstd::string::StringExecFns;

verus! {

/// The category of a planet on the wire.
#[derive(Clone, Copy, Debug, PartialEq, Eq, Structural)]
pub enum GrpcType {
    TerrestrialPlanet,
    GasGiant,
    IceGiant,
    DwarfPlanet,
}

/// A point in time on the wire: whole seconds since the start of 1970 and
/// the nanoseconds past them.
#[derive(Clone, Copy, Debug, PartialEq, Eq, Structural)]
pub struct Timestamp {
    pub seconds: i64,
    pub nanos: i32,
}

/// A single-precision number, held as its IEEE 754 bit pattern.
#[derive(Clone, Copy, Debug, PartialEq, Eq, Structural)]
pub struct Single {
    pub bits: u32,
}

/// A stored satellite.
#[derive(Debug, PartialEq)]
pub struct SatelliteEntity {
    pub id: i32,
    pub name: String,
    pub first_spacecraft_landing_date: Option<CalendarDate>,
}

/// A stored planet. The two measures are held as what the stored decimal
/// narrows to, `None` where the narrowing gave nothing. A measure that
/// narrowed to no finite number does not fit the wire either.
#[derive(Debug, PartialEq)]
pub struct PlanetEntity {
    pub id: i32,
    pub name: String,
    pub type_: String,
    pub mean_radius: Option<Single>,
    pub mass: Option<Single>,
}

/// A stored planet together with its satellites.
#[derive(Debug, PartialEq)]
pub struct PlanetWrapper {
    pub planet: PlanetEntity,
    pub satellites: Vec<SatelliteEntity>,
}

/// A satellite on the wire.
#[derive(Debug, PartialEq)]
pub struct GrpcSatellite {
    pub id: u64,
    pub name: String,
    pub first_spacecraft_landing_date: Option<Timestamp>,
}

/// A planet on the wire.
#[derive(Debug, PartialEq)]
pub struct GrpcPlanet {
    pub id: u64,
    pub name: String,
    pub planet_type: GrpcType,
    pub mean_radius: Single,
    pub mass: Single,
    pub satellites: Vec<GrpcSatellite>,
    pub image: Vec<u8>,
}

/// What a `SatelliteEntity` holds.
pub struct SatelliteRecord {
    pub id: i32,
    pub name: Seq<char>,
    pub first_spacecraft_landing_date: Option<CalendarDate>,
}

/// What a `PlanetEntity` holds.
pub struct PlanetRecord {
    pub id: i32,
    pub name: Seq<char>,
    pub type_: Seq<char>,
    pub mean_radius: Option<Single>,
    pub mass: Option<Single>,
}

/// What a `PlanetWrapper` holds.
pub struct PlanetWithSatellites {
    pub planet: PlanetRecord,
    pub satellites: Seq<SatelliteRecord>,
}

/// What a `GrpcSatellite` holds.
pub struct SatelliteMessage {
    pub id: u64,
    pub name: Seq<char>,
    pub first_spacecraft_landing_date: Option<Timestamp>,
}

/// What a `GrpcPlanet` holds.
pub struct PlanetMessage {
    pub id: u64,
    pub name: Seq<char>,
    pub planet_type: GrpcType,
    pub mean_radius: Single,
    pub mass: Single,
    pub satellites: Seq<SatelliteMessage>,
    pub image: Seq<u8>,
}

impl View for SatelliteEntity {
    type V = SatelliteRecord;

    open spec fn view(&self) -> SatelliteRecord {
        SatelliteRecord {
            id: self.id,
            name: self.name@,
            first_spacecraft_landing_date: self.first_spacecraft_landing_date,
        }
    }
}

impl DeepView for SatelliteEntity {
    type V = SatelliteRecord;

    open spec fn deep_view(&self) -> SatelliteRecord {
        self@
    }
}

impl View for PlanetEntity {
    type V = PlanetRecord;

    open spec fn view(&self) -> PlanetRecord {
        PlanetRecord {
            id: self.id,
            name: self.name@,
            type_: self.type_@,
            mean_radius: self.mean_radius,
            mass: self.mass,
        }
    }
}

impl DeepView for PlanetEntity {
    type V = PlanetRecord;

    open spec fn deep_view(&self) -> PlanetRecord {
        self@
    }
}

impl View for PlanetWrapper {
    type V = PlanetWithSatellites;

    open spec fn view(&self) -> PlanetWithSatellites {
        PlanetWithSatellites {
            planet: self.planet@,
            satellites: self.satellites.deep_view(),
        }
    }
}

impl DeepView for PlanetWrapper {
    type V = PlanetWithSatellites;

    open spec fn deep_view(&self) -> PlanetWithSatellites {
        self@
    }
}

impl View for GrpcSatellite {
    type V = SatelliteMessage;

    open spec fn view(&self) -> SatelliteMessage {
        SatelliteMessage {
            id: self.id,
            name: self.name@,
            first_spacecraft_landing_date: self.first_spacecraft_landing_date,
        }
    }
}

impl DeepView for GrpcSatellite {
    type V = SatelliteMessage;

    open spec fn deep_view(&self) -> SatelliteMessage {
        self@
    }
}

impl View for GrpcPlanet {
    type V = PlanetMessage;

    open spec fn view(&self) -> PlanetMessage {
        PlanetMessage {
            id: self.id,
            name: self.name@,
            planet_type: self.planet_type,
            mean_radius: self.mean_radius,
            mass: self.mass,
            satellites: self.satellites.deep_view(),
            image: self.image@,
        }
    }
}

impl DeepView for GrpcPlanet {
    type V = PlanetMessage;

    open spec fn deep_view(&self) -> PlanetMessage {
        self@
    }
}

/// The identifier on the wire: the stored one, a negative one counted back
/// from two to the power of 64.
pub open spec fn wire_id(id: i32) -> u64 {
    if id >= 0 {
        id as u64
    } else {
        (id + 0x1_0000_0000_0000_0000) as u64
    }
}

/// Widens a stored identifier to the width of the wire.
pub fn id_to_wire(id: i32) -> (wire: u64)
    ensures
        wire == wire_id(id),
{
    let wire = #[verifier::truncate] (id as u64);
    assert(wire == wire_id(id)) by (bit_vector)
        requires
            wire == #[verifier::truncate] (id as u64),
    ;
    wire
}

impl Single {
    /// Whether the number is finite: neither an infinity nor a NaN, which
    /// are the patterns with all eight exponent bits set.
    pub open spec fn finite(self) -> bool {
        (self.bits / 0x80_0000) % 0x100 != 0xff
    }

    /// Tells whether the number is finite.
    pub fn is_finite(self) -> (finite: bool)
        ensures
            finite == self.finite(),
    {
        (self.bits / 0x80_0000) % 0x100 != 0xff
    }
}

/// The measure as the wire takes it: a finite number, if there is one.
pub open spec fn fitting(measure: Option<Single>) -> Option<Single> {
    match measure {
        Some(number) => if number.finite() {
            Some(number)
        } else {
            None
        },
        None => None,
    }
}

/// Narrows a stored measure to what the wire takes.
pub fn fit(measure: Option<Single>) -> (fit: Option<Single>)
    ensures
        fit == fitting(measure),
{
    match measure {
        Some(number) => if number.is_finite() {
            Some(number)
        } else {
            None
        },
        None => None,
    }
}

impl Timestamp {
    /// The point in time that lies the given number of whole seconds from
    /// the start of 1970.
    pub fn from_seconds(seconds: i64) -> (at: Timestamp)
        ensures
            at == (Timestamp { seconds, nanos: 0 }),
    {
        Timestamp { seconds, nanos: 0 }
    }
}

/// The wire timestamp of a landing date: the midnight that begins the day.
pub open spec fn landing_timestamp(date: Option<CalendarDate>) -> Option<Timestamp> {
    match date {
        Some(d) => Some(Timestamp { seconds: d.midnight(), nanos: 0 }),
        None => None,
    }
}

/// The wire message of a stored satellite.
pub open spec fn satellite_message(entity: SatelliteRecord) -> SatelliteMessage {
    SatelliteMessage {
        id: wire_id(entity.id),
        name: entity.name,
        first_spacecraft_landing_date: landing_timestamp(entity.first_spacecraft_landing_date),
    }
}

impl FromSpecImpl<SatelliteEntity> for GrpcSatellite {
    open spec fn obeys_from_spec() -> bool {
        true
    }

    open spec fn from_spec(entity: SatelliteEntity) -> GrpcSatellite {
        GrpcSatellite {
            id: wire_id(entity.id),
            name: entity.name,
            first_spacecraft_landing_date: landing_timestamp(entity.first_spacecraft_landing_date),
        }
    }
}

impl From<SatelliteEntity> for GrpcSatellite {
    /// Maps a stored satellite to its wire message.
    fn from(entity: SatelliteEntity) -> (message: GrpcSatellite)
        ensures
            message@ == satellite_message(entity@),
    {
        let first_spacecraft_landing_date = match entity.first_spacecraft_landing_date {
            Some(date) => Some(Timestamp::from_seconds(date.midnight_seconds())),
            None => None,
        };
        GrpcSatellite { id: id_to_wire(entity.id), name: entity.name, first_spacecraft_landing_date }
    }
}

/// The planet category that a stored category code stands for.
pub open spec fn planet_type_of(code: Seq<char>) -> Option<GrpcType> {
    if code == "TERRESTRIAL_PLANET"@ {
        Some(GrpcType::TerrestrialPlanet)
    } else if code == "GAS_GIANT"@ {
        Some(GrpcType::GasGiant)
    } else if code == "ICE_GIANT"@ {
        Some(GrpcType::IceGiant)
    } else if code == "DWARF_PLANET"@ {
        Some(GrpcType::DwarfPlanet)
    } else {
        None
    }
}

/// Maps a stored category code to the planet category, by exact match.
pub fn convert_string_to_planet_type(planet_type: &str) -> (category: Result<
    GrpcType,
    ConversionError,
>)
    ensures
        match planet_type_of(planet_type@) {
            Some(t) => category == Ok::<GrpcType, ConversionError>(t),
            None => category == Err::<GrpcType, ConversionError>(
                ConversionError::UnknownPlanetType,
            ),
        },
{
    if same_text(planet_type, "TERRESTRIAL_PLANET") {
        Ok(GrpcType::TerrestrialPlanet)
    } else if same_text(planet_type, "GAS_GIANT") {
        Ok(GrpcType::GasGiant)
    } else if same_text(planet_type, "ICE_GIANT") {
        Ok(GrpcType::IceGiant)
    } else if same_text(planet_type, "DWARF_PLANET") {
        Ok(GrpcType::DwarfPlanet)
    } else {
        Err(ConversionError::UnknownPlanetType)
    }
}

/// The lower-case form of `text`, as Unicode defines lower case.
pub uninterp spec fn lowercase(text: Seq<char>) -> Seq<char>;

/// Calls std's `str::to_lowercase`. The contract names the result after the
/// characters of `text`.
#[verifier::external_body]
fn to_lowercase(text: &str) -> (lower: String)
    ensures
        lower@ == lowercase(text@),
{
    text.to_lowercase()
}

/// The name of the image file with the given stem.
pub open spec fn jpg_name(stem: Seq<char>) -> Seq<char> {
    stem + ".jpg"@
}

/// The key under which the asset store holds the image of the planet with
/// the given name.
pub open spec fn image_key(name: Seq<char>) -> Seq<char> {
    jpg_name(lowercase(name))
}

/// Appends the image suffix to a file stem.
pub fn jpg_filename(stem: &str) -> (filename: String)
    ensures
        filename@ == jpg_name(stem@),
{
    String::from_str(stem).concat(".jpg")
}

/// Derives the key of a planet's image in the asset store from its name.
pub fn image_filename(name: &str) -> (filename: String)
    ensures
        filename@ == image_key(name@),
{
    let lower = to_lowercase(name);
    jpg_filename(lower.as_str())
}

/// The outcome of converting a stored planet, given what the asset store
/// holds under the planet's image key.
pub open spec fn converted(pw: PlanetWithSatellites, image: Option<Seq<u8>>) -> Result<
    PlanetMessage,
    ConversionError,
> {
    if planet_type_of(pw.planet.type_) is None {
        Err(ConversionError::UnknownPlanetType)
    } else if image is None {
        Err(ConversionError::MissingImage)
    } else if fitting(pw.planet.mean_radius) is None {
        Err(ConversionError::MeanRadiusOutOfRange)
    } else if fitting(pw.planet.mass) is None {
        Err(ConversionError::MassOutOfRange)
    } else {
        Ok(
            PlanetMessage {
                id: wire_id(pw.planet.id),
                name: pw.planet.name,
                planet_type: planet_type_of(pw.planet.type_).unwrap(),
                mean_radius: fitting(pw.planet.mean_radius).unwrap(),
                mass: fitting(pw.planet.mass).unwrap(),
                satellites: pw.satellites.map_values(|s: SatelliteRecord| satellite_message(s)),
                image: image.unwrap(),
            },
        )
    }
}

/// Maps stored satellites to their wire messages, in their order.
fn convert_satellites(entities: Vec<SatelliteEntity>) -> (messages: Vec<GrpcSatellite>)
    ensures
        messages.deep_view() == entities.deep_view().map_values(
            |s: SatelliteRecord| satellite_message(s),
        ),
{
    let mut messages: Vec<GrpcSatellite> = Vec::new();
    let ghost all = entities@;
    for entity in it: entities
        invariant
            it.seq() == all,
            messages@.len() == it.index(),
            forall|k: int|
                0 <= k < messages@.len() ==> (#[trigger] messages@[k])@ == satellite_message(
                    all[k]@,
                ),
    {
        messages.push(GrpcSatellite::from(entity));
    }
    assert(messages.deep_view() =~= entities.deep_view().map_values(
        |s: SatelliteRecord| satellite_message(s),
    ));
    messages
}

/// Maps a stored planet and its satellites to the planet's wire message.
/// `image` is what the asset store holds under `image_filename` of the
/// planet's name, `None` where it holds nothing. A measure fits where it
/// is a finite number. Of several failures the first in this order is
/// reported: the category, the image, the mean radius, the mass.
pub fn convert(pw: PlanetWrapper, image: Option<Vec<u8>>) -> (message: Result<
    GrpcPlanet,
    ConversionError,
>)
    ensures
        match message {
            Ok(m) => converted(pw@, image.deep_view()) == Ok::<PlanetMessage, ConversionError>(m@),
            Err(e) => converted(pw@, image.deep_view()) == Err::<PlanetMessage, ConversionError>(
                e,
            ),
        },
{
    let planet = pw.planet;
    let planet_type = match convert_string_to_planet_type(planet.type_.as_str()) {
        Ok(t) => t,
        Err(e) => {
            return Err(e);
        },
    };
    let bytes = match image {
        Some(bytes) => bytes,
        None => {
            return Err(ConversionError::MissingImage);
        },
    };
    let mean_radius = match fit(planet.mean_radius) {
        Some(x) => x,
        None => {
            return Err(ConversionError::MeanRadiusOutOfRange);
        },
    };
    let mass = match fit(planet.mass) {
        Some(x) => x,
        None => {
            return Err(ConversionError::MassOutOfRange);
        },
    };
    let satellites = convert_satellites(pw.satellites);
    let message = GrpcPlanet {
        id: id_to_wire(planet.id),
        name: planet.name,
        planet_type,
        mean_radius,
        mass,
        satellites,
        image: bytes,
    };
    proof {
        assert(bytes.deep_view() =~= bytes@);
    }
    Ok(message)
}

} // verus!
