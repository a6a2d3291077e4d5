use vstd::prelude::*;

verus! {

/// Byte order of the integer fields of a file.
#[derive(Debug, Clone, Copy, PartialEq, Eq, Structural)]
pub enum ByteOrder {
    /// Little-endian.
    LE,
    /// Big-endian.
    BE,
}

impl ByteOrder {
    /// The byte order that a header's selector byte chooses: `0` is
    /// big-endian, anything else little-endian.
    pub open spec fn from_selector(byte: u8) -> ByteOrder {
        if byte == 0 {
            ByteOrder::BE
        } else {
            ByteOrder::LE
        }
    }

    /// The selector byte that chooses this byte order.
    pub fn as_pc_byte_order(&self) -> (r: u8)
        ensures
            ByteOrder::from_selector(r) == *self,
    {
        match self {
            ByteOrder::BE => 0,
            ByteOrder::LE => 1,
        }
    }

    /// Decodes the header's byte-order selector.
    pub fn from_pc_byte_order(byte: u8) -> (r: ByteOrder)
        ensures
            r == ByteOrder::from_selector(byte),
    {
        if byte == 0 {
            ByteOrder::BE
        } else {
            ByteOrder::LE
        }
    }
}

} // verus!

verus! {

/// Airspace style, from the low nibble and the top bit of an item's type byte.
#[derive(Debug, Clone, Copy, PartialEq, Eq, Structural)]
pub enum CubStyle {
    Unknown,
    ControlZone,
    RestrictedArea,
    ProhibitedArea,
    DangerArea,
    TemporaryReservedArea,
    TerminalControlArea,
    TrafficInformationZone,
    Airway,
    ControlArea,
    GliderSector,
    TransponderMandatoryZone,
    MilitaryAerodromeTrafficZone,
    RadioMandatoryZone,
    Notam,
    Advisory,
    AirDefenceIdentificationZone,
    FlightInformationRegion,
    DelegatedFir,
    TrafficInformationArea,
    SpecialRulesZone,
    TemporaryFlightRestriction,
    AerodromeTrafficZone,
    FlightInformationServiceArea,
    LegacyRmz,
    AerialSportingAndRecreationArea,
    TransponderRecommendedZone,
    VfrRoute,
    Alert,
    TemporarySegregatedArea,
    Warning,
}

impl CubStyle {
    /// The style bits (`type_byte & 0x8f`) of each style.
    pub open spec fn code(self) -> u8 {
        match self {
            CubStyle::Unknown => 0x00,
            CubStyle::ControlZone => 0x01,
            CubStyle::RestrictedArea => 0x02,
            CubStyle::ProhibitedArea => 0x03,
            CubStyle::DangerArea => 0x04,
            CubStyle::TemporaryReservedArea => 0x05,
            CubStyle::TerminalControlArea => 0x06,
            CubStyle::TrafficInformationZone => 0x07,
            CubStyle::Airway => 0x08,
            CubStyle::ControlArea => 0x09,
            CubStyle::GliderSector => 0x0a,
            CubStyle::TransponderMandatoryZone => 0x0b,
            CubStyle::MilitaryAerodromeTrafficZone => 0x0c,
            CubStyle::RadioMandatoryZone => 0x0d,
            CubStyle::Notam => 0x0f,
            CubStyle::Advisory => 0x80,
            CubStyle::AirDefenceIdentificationZone => 0x81,
            CubStyle::FlightInformationRegion => 0x82,
            CubStyle::DelegatedFir => 0x83,
            CubStyle::TrafficInformationArea => 0x84,
            CubStyle::SpecialRulesZone => 0x85,
            CubStyle::TemporaryFlightRestriction => 0x86,
            CubStyle::AerodromeTrafficZone => 0x87,
            CubStyle::FlightInformationServiceArea => 0x88,
            CubStyle::LegacyRmz => 0x89,
            CubStyle::AerialSportingAndRecreationArea => 0x8a,
            CubStyle::TransponderRecommendedZone => 0x8b,
            CubStyle::VfrRoute => 0x8c,
            CubStyle::Alert => 0x8d,
            CubStyle::TemporarySegregatedArea => 0x8e,
            CubStyle::Warning => 0x8f,
        }
    }

    /// The style whose code equals the style bits of `byte`, or `Unknown`
    /// where none does.
    pub open spec fn from_type_byte_spec(byte: u8) -> CubStyle {
        if exists|s: CubStyle| #[trigger] s.code() == (byte & 0x8f) {
            choose|s: CubStyle| #[trigger] s.code() == (byte & 0x8f)
        } else {
            CubStyle::Unknown
        }
    }

    /// No two styles share a code.
    pub proof fn lemma_code_distinct(s: CubStyle)
        ensures
            forall|t: CubStyle| #[trigger] t.code() == s.code() ==> t == s,
    {
    }

    /// The style that a type byte names: the one whose code equals the
    /// byte's style bits, or `Unknown` where none does.
    pub fn from_type_byte(byte: u8) -> (r: CubStyle)
        ensures
            r.code() == (byte & 0x8f) || (r == CubStyle::Unknown && forall|s: CubStyle|
                #[trigger] s.code() != (byte & 0x8f)),
            r == CubStyle::from_type_byte_spec(byte),
    {
        proof {
            if exists|s: CubStyle| #[trigger] s.code() == (byte & 0x8f) {
                let s = choose|s: CubStyle| #[trigger] s.code() == (byte & 0x8f);
                CubStyle::lemma_code_distinct(s);
            }
        }
        let value = byte & 0x8f;
        match value {
            0x00 => CubStyle::Unknown,
            0x01 => CubStyle::ControlZone,
            0x02 => CubStyle::RestrictedArea,
            0x03 => CubStyle::ProhibitedArea,
            0x04 => CubStyle::DangerArea,
            0x05 => CubStyle::TemporaryReservedArea,
            0x06 => CubStyle::TerminalControlArea,
            0x07 => CubStyle::TrafficInformationZone,
            0x08 => CubStyle::Airway,
            0x09 => CubStyle::ControlArea,
            0x0a => CubStyle::GliderSector,
            0x0b => CubStyle::TransponderMandatoryZone,
            0x0c => CubStyle::MilitaryAerodromeTrafficZone,
            0x0d => CubStyle::RadioMandatoryZone,
            0x0f => CubStyle::Notam,
            0x80 => CubStyle::Advisory,
            0x81 => CubStyle::AirDefenceIdentificationZone,
            0x82 => CubStyle::FlightInformationRegion,
            0x83 => CubStyle::DelegatedFir,
            0x84 => CubStyle::TrafficInformationArea,
            0x85 => CubStyle::SpecialRulesZone,
            0x86 => CubStyle::TemporaryFlightRestriction,
            0x87 => CubStyle::AerodromeTrafficZone,
            0x88 => CubStyle::FlightInformationServiceArea,
            0x89 => CubStyle::LegacyRmz,
            0x8a => CubStyle::AerialSportingAndRecreationArea,
            0x8b => CubStyle::TransponderRecommendedZone,
            0x8c => CubStyle::VfrRoute,
            0x8d => CubStyle::Alert,
            0x8e => CubStyle::TemporarySegregatedArea,
            0x8f => CubStyle::Warning,
            _ => CubStyle::Unknown,
        }
    }

    /// The style bits of this style.
    pub fn as_byte(&self) -> (r: u8)
        ensures
            r == self.code(),
    {
        match self {
            CubStyle::Unknown => 0x00,
            CubStyle::ControlZone => 0x01,
            CubStyle::RestrictedArea => 0x02,
            CubStyle::ProhibitedArea => 0x03,
            CubStyle::DangerArea => 0x04,
            CubStyle::TemporaryReservedArea => 0x05,
            CubStyle::TerminalControlArea => 0x06,
            CubStyle::TrafficInformationZone => 0x07,
            CubStyle::Airway => 0x08,
            CubStyle::ControlArea => 0x09,
            CubStyle::GliderSector => 0x0a,
            CubStyle::TransponderMandatoryZone => 0x0b,
            CubStyle::MilitaryAerodromeTrafficZone => 0x0c,
            CubStyle::RadioMandatoryZone => 0x0d,
            CubStyle::Notam => 0x0f,
            CubStyle::Advisory => 0x80,
            CubStyle::AirDefenceIdentificationZone => 0x81,
            CubStyle::FlightInformationRegion => 0x82,
            CubStyle::DelegatedFir => 0x83,
            CubStyle::TrafficInformationArea => 0x84,
            CubStyle::SpecialRulesZone => 0x85,
            CubStyle::TemporaryFlightRestriction => 0x86,
            CubStyle::AerodromeTrafficZone => 0x87,
            CubStyle::FlightInformationServiceArea => 0x88,
            CubStyle::LegacyRmz => 0x89,
            CubStyle::AerialSportingAndRecreationArea => 0x8a,
            CubStyle::TransponderRecommendedZone => 0x8b,
            CubStyle::VfrRoute => 0x8c,
            CubStyle::Alert => 0x8d,
            CubStyle::TemporarySegregatedArea => 0x8e,
            CubStyle::Warning => 0x8f,
        }
    }
}

/// ICAO airspace class, from bits 4 to 6 of an item's type byte.
#[derive(Debug, Clone, Copy, PartialEq, Eq, Structural)]
pub enum CubClass {
    Unknown,
    ClassA,
    ClassB,
    ClassC,
    ClassD,
    ClassE,
    ClassF,
    ClassG,
}

impl CubClass {
    /// The three class bits of each class.
    pub open spec fn code(self) -> u8 {
        match self {
            CubClass::Unknown => 0,
            CubClass::ClassA => 1,
            CubClass::ClassB => 2,
            CubClass::ClassC => 3,
            CubClass::ClassD => 4,
            CubClass::ClassE => 5,
            CubClass::ClassF => 6,
            CubClass::ClassG => 7,
        }
    }

    /// The class that bits 4 to 6 of a type byte name.
    pub fn from_type_byte(byte: u8) -> (r: CubClass)
        ensures
            r.code() == (byte >> 4u8) & 0x07,
    {
        assert((byte >> 4u8) & 0x07 <= 7) by (bit_vector);
        match (byte >> 4u8) & 0x07 {
            0 => CubClass::Unknown,
            1 => CubClass::ClassA,
            2 => CubClass::ClassB,
            3 => CubClass::ClassC,
            4 => CubClass::ClassD,
            5 => CubClass::ClassE,
            6 => CubClass::ClassF,
            _ => CubClass::ClassG,
        }
    }

    /// The class bits of this class.
    pub fn as_byte(&self) -> (r: u8)
        ensures
            r == self.code(),
    {
        match self {
            CubClass::Unknown => 0,
            CubClass::ClassA => 1,
            CubClass::ClassB => 2,
            CubClass::ClassC => 3,
            CubClass::ClassD => 4,
            CubClass::ClassE => 5,
            CubClass::ClassF => 6,
            CubClass::ClassG => 7,
        }
    }
}

/// The reference of an altitude limit.
#[derive(Debug, Clone, Copy, PartialEq, Eq, Structural)]
pub enum AltStyle {
    Unknown,
    AboveGroundLevel,
    MeanSeaLevel,
    FlightLevel,
    Unlimited,
    Notam,
}

impl AltStyle {
    /// The nibble of each reference.
    pub open spec fn code(self) -> u8 {
        match self {
            AltStyle::Unknown => 0,
            AltStyle::AboveGroundLevel => 1,
            AltStyle::MeanSeaLevel => 2,
            AltStyle::FlightLevel => 3,
            AltStyle::Unlimited => 4,
            AltStyle::Notam => 5,
        }
    }

    /// The reference that the low four bits of `value` name, or `Unknown`.
    pub fn from_nibble(value: u8) -> (r: AltStyle)
        ensures
            r.code() == (value & 0x0f) || (r == AltStyle::Unknown && (value & 0x0f) > 5),
    {
        match value & 0x0f {
            0 => AltStyle::Unknown,
            1 => AltStyle::AboveGroundLevel,
            2 => AltStyle::MeanSeaLevel,
            3 => AltStyle::FlightLevel,
            4 => AltStyle::Unlimited,
            5 => AltStyle::Notam,
            _ => AltStyle::Unknown,
        }
    }

    /// The nibble of this reference.
    pub fn as_nibble(&self) -> (r: u8)
        ensures
            r == self.code(),
    {
        match self {
            AltStyle::Unknown => 0,
            AltStyle::AboveGroundLevel => 1,
            AltStyle::MeanSeaLevel => 2,
            AltStyle::FlightLevel => 3,
            AltStyle::Unlimited => 4,
            AltStyle::Notam => 5,
        }
    }
}

/// Extended airspace type.
#[derive(Debug, Clone, Copy, PartialEq, Eq, Structural)]
pub enum ExtendedType {
    UpperInfoRegion,
    MilitaryTrainingRoute,
    HelicopterTrafficZone,
    AreaControlCenterSector,
    LowerTrafficArea,
    UpperTrafficArea,
    MilitaryTrainingArea,
    OverflightRestriction,
    TraTsaFeedingRoute,
    VfrSector,
}

impl ExtendedType {
    /// The byte of each extended type; zero stands for none.
    pub open spec fn code(self) -> u8 {
        match self {
            ExtendedType::UpperInfoRegion => 0x01,
            ExtendedType::MilitaryTrainingRoute => 0x02,
            ExtendedType::HelicopterTrafficZone => 0x03,
            ExtendedType::AreaControlCenterSector => 0x04,
            ExtendedType::LowerTrafficArea => 0x05,
            ExtendedType::UpperTrafficArea => 0x06,
            ExtendedType::MilitaryTrainingArea => 0x07,
            ExtendedType::OverflightRestriction => 0x08,
            ExtendedType::TraTsaFeedingRoute => 0x09,
            ExtendedType::VfrSector => 0x0a,
        }
    }

    /// The extended type that a byte names; none for zero or an unknown byte.
    pub fn from_byte(byte: u8) -> (r: Option<ExtendedType>)
        ensures
            match r {
                Some(t) => t.code() == byte,
                None => forall|t: ExtendedType| #[trigger] t.code() != byte,
            },
    {
        match byte {
            0x01 => Some(ExtendedType::UpperInfoRegion),
            0x02 => Some(ExtendedType::MilitaryTrainingRoute),
            0x03 => Some(ExtendedType::HelicopterTrafficZone),
            0x04 => Some(ExtendedType::AreaControlCenterSector),
            0x05 => Some(ExtendedType::LowerTrafficArea),
            0x06 => Some(ExtendedType::UpperTrafficArea),
            0x07 => Some(ExtendedType::MilitaryTrainingArea),
            0x08 => Some(ExtendedType::OverflightRestriction),
            0x09 => Some(ExtendedType::TraTsaFeedingRoute),
            0x0a => Some(ExtendedType::VfrSector),
            _ => None,
        }
    }

    /// The byte of this extended type.
    pub fn as_byte(&self) -> (r: u8)
        ensures
            r == self.code(),
    {
        match self {
            ExtendedType::UpperInfoRegion => 0x01,
            ExtendedType::MilitaryTrainingRoute => 0x02,
            ExtendedType::HelicopterTrafficZone => 0x03,
            ExtendedType::AreaControlCenterSector => 0x04,
            ExtendedType::LowerTrafficArea => 0x05,
            ExtendedType::UpperTrafficArea => 0x06,
            ExtendedType::MilitaryTrainingArea => 0x07,
            ExtendedType::OverflightRestriction => 0x08,
            ExtendedType::TraTsaFeedingRoute => 0x09,
            ExtendedType::VfrSector => 0x0a,
        }
    }
}

/// NOTAM type, from bits 28 and 29 of an item's extra data.
#[derive(Debug, Clone, Copy, PartialEq, Eq, Structural)]
pub enum NotamType {
    NoType,
    Cancel,
    New,
    Replace,
}

impl NotamType {
    /// The two bits of each NOTAM type.
    pub open spec fn code(self) -> u32 {
        match self {
            NotamType::NoType => 0,
            NotamType::Cancel => 1,
            NotamType::New => 2,
            NotamType::Replace => 3,
        }
    }

    /// The NOTAM type in bits 28 and 29 of `bits`.
    pub fn from_bits(bits: u32) -> (r: NotamType)
        ensures
            r.code() == (bits >> 28u32) & 0x03,
    {
        assert((bits >> 28u32) & 0x03 <= 3) by (bit_vector);
        match (bits >> 28u32) & 0x03 {
            0 => NotamType::NoType,
            1 => NotamType::Cancel,
            2 => NotamType::New,
            _ => NotamType::Replace,
        }
    }
}

/// NOTAM traffic, from bits 4 to 6 of an item's extra data.
#[derive(Debug, Clone, Copy, PartialEq, Eq, Structural)]
pub enum NotamTraffic {
    Miscellaneous,
    Ifr,
    Vfr,
    IfrAndVfr,
    Checklist,
}

impl NotamTraffic {
    /// The three bits of each traffic kind.
    pub open spec fn code(self) -> u32 {
        match self {
            NotamTraffic::Miscellaneous => 0,
            NotamTraffic::Ifr => 1,
            NotamTraffic::Vfr => 2,
            NotamTraffic::IfrAndVfr => 3,
            NotamTraffic::Checklist => 4,
        }
    }

    /// The traffic kind in bits 4 to 6 of `bits`; values above 4 read as
    /// `Miscellaneous`.
    pub fn from_bits(bits: u32) -> (r: NotamTraffic)
        ensures
            r.code() == (bits >> 4u32) & 0x07 || (r == NotamTraffic::Miscellaneous && (bits
                >> 4u32) & 0x07 > 4),
    {
        match (bits >> 4u32) & 0x07 {
            0 => NotamTraffic::Miscellaneous,
            1 => NotamTraffic::Ifr,
            2 => NotamTraffic::Vfr,
            3 => NotamTraffic::IfrAndVfr,
            4 => NotamTraffic::Checklist,
            _ => NotamTraffic::Miscellaneous,
        }
    }
}

/// NOTAM scope, from bits 0 to 3 of an item's extra data.
#[derive(Debug, Clone, Copy, PartialEq, Eq, Structural)]
pub enum NotamScope {
    Unknown,
    Aerodrome,
    EnRoute,
    AerodromeAndEnRoute,
    NavWarning,
    AerodromeAndNavWarning,
    Checklist,
}

impl NotamScope {
    /// The four bits of each scope.
    pub open spec fn code(self) -> u32 {
        match self {
            NotamScope::Unknown => 0,
            NotamScope::Aerodrome => 1,
            NotamScope::EnRoute => 2,
            NotamScope::AerodromeAndEnRoute => 3,
            NotamScope::NavWarning => 4,
            NotamScope::AerodromeAndNavWarning => 5,
            NotamScope::Checklist => 8,
        }
    }

    /// The scope in bits 0 to 3 of `bits`, or `Unknown`.
    pub fn from_bits(bits: u32) -> (r: NotamScope)
        ensures
            r.code() == bits & 0x0f || (r == NotamScope::Unknown && forall|s: NotamScope|
                #[trigger] s.code() != bits & 0x0f),
    {
        match bits & 0x0f {
            0 => NotamScope::Unknown,
            1 => NotamScope::Aerodrome,
            2 => NotamScope::EnRoute,
            3 => NotamScope::AerodromeAndEnRoute,
            4 => NotamScope::NavWarning,
            5 => NotamScope::AerodromeAndNavWarning,
            8 => NotamScope::Checklist,
            _ => NotamScope::Unknown,
        }
    }
}

/// Activity flags: the top twelve bits of an item's active time.
#[derive(Debug, Clone, Copy, PartialEq, Eq, Structural)]
pub struct DaysActive {
    bits: u16,
}

impl DaysActive {
    /// The flag bits.
    pub closed spec fn bits(self) -> u16 {
        self.bits
    }

    /// Wraps flag bits.
    pub fn from_bits(bits: u16) -> (r: DaysActive)
        ensures
            r.bits() == bits,
    {
        DaysActive { bits }
    }

    /// The flag bits.
    pub fn as_bits(&self) -> (r: u16)
        ensures
            r == self.bits(),
    {
        self.bits
    }

    /// Active on Sundays (bit 0).
    pub fn sunday(&self) -> (r: bool)
        ensures
            r == (self.bits() & 0x001 != 0),
    {
        self.bits & 0x001 != 0
    }

    /// Active on Mondays (bit 1).
    pub fn monday(&self) -> (r: bool)
        ensures
            r == (self.bits() & 0x002 != 0),
    {
        self.bits & 0x002 != 0
    }

    /// Active on Tuesdays (bit 2).
    pub fn tuesday(&self) -> (r: bool)
        ensures
            r == (self.bits() & 0x004 != 0),
    {
        self.bits & 0x004 != 0
    }

    /// Active on Wednesdays (bit 3).
    pub fn wednesday(&self) -> (r: bool)
        ensures
            r == (self.bits() & 0x008 != 0),
    {
        self.bits & 0x008 != 0
    }

    /// Active on Thursdays (bit 4).
    pub fn thursday(&self) -> (r: bool)
        ensures
            r == (self.bits() & 0x010 != 0),
    {
        self.bits & 0x010 != 0
    }

    /// Active on Fridays (bit 5).
    pub fn friday(&self) -> (r: bool)
        ensures
            r == (self.bits() & 0x020 != 0),
    {
        self.bits & 0x020 != 0
    }

    /// Active on Saturdays (bit 6).
    pub fn saturday(&self) -> (r: bool)
        ensures
            r == (self.bits() & 0x040 != 0),
    {
        self.bits & 0x040 != 0
    }

    /// Active on holidays (bit 7).
    pub fn holidays(&self) -> (r: bool)
        ensures
            r == (self.bits() & 0x080 != 0),
    {
        self.bits & 0x080 != 0
    }

    /// Activated by the airspace use plan (bit 8).
    pub fn aup(&self) -> (r: bool)
        ensures
            r == (self.bits() & 0x100 != 0),
    {
        self.bits & 0x100 != 0
    }

    /// Irregular activity (bit 9).
    pub fn irregular(&self) -> (r: bool)
        ensures
            r == (self.bits() & 0x200 != 0),
    {
        self.bits & 0x200 != 0
    }

    /// Activated by NOTAM (bit 10).
    pub fn by_notam(&self) -> (r: bool)
        ensures
            r == (self.bits() & 0x400 != 0),
    {
        self.bits & 0x400 != 0
    }

    /// No flag is set.
    pub fn is_unknown(&self) -> (r: bool)
        ensures
            r == (self.bits() == 0),
    {
        self.bits == 0
    }
}

/// Type id of an optional-data record.
#[derive(Debug, Clone, Copy, PartialEq, Eq, Structural)]
pub enum CubDataId {
    IcaoCode,
    SecondaryFrequency,
    ExceptionRules,
    NotamRemarks,
    NotamId,
    NotamInsertTime,
}

impl CubDataId {
    /// The id byte of each record type.
    pub open spec fn code(self) -> u8 {
        match self {
            CubDataId::IcaoCode => 0,
            CubDataId::SecondaryFrequency => 1,
            CubDataId::ExceptionRules => 2,
            CubDataId::NotamRemarks => 3,
            CubDataId::NotamId => 4,
            CubDataId::NotamInsertTime => 5,
        }
    }

    /// The record type of an id byte; none for ids above 5.
    pub fn from_byte(byte: u8) -> (r: Option<CubDataId>)
        ensures
            match r {
                Some(id) => id.code() == byte,
                None => byte > 5,
            },
    {
        match byte {
            0 => Some(CubDataId::IcaoCode),
            1 => Some(CubDataId::SecondaryFrequency),
            2 => Some(CubDataId::ExceptionRules),
            3 => Some(CubDataId::NotamRemarks),
            4 => Some(CubDataId::NotamId),
            5 => Some(CubDataId::NotamInsertTime),
            _ => None,
        }
    }

    /// The id byte of this record type.
    pub fn as_byte(&self) -> (r: u8)
        ensures
            r == self.code(),
    {
        match self {
            CubDataId::IcaoCode => 0,
            CubDataId::SecondaryFrequency => 1,
            CubDataId::ExceptionRules => 2,
            CubDataId::NotamRemarks => 3,
            CubDataId::NotamId => 4,
            CubDataId::NotamInsertTime => 5,
        }
    }
}

/// The letter that a five-bit group codes: 1 to 26 are `A` to `Z`.
pub open spec fn letter(v: u32) -> Option<char> {
    if 1 <= v <= 26 {
        Some(((64 + v) as u8) as char)
    } else {
        None
    }
}

/// NOTAM subject and action codes, two letters each.
#[derive(Debug, Clone, Copy, PartialEq, Eq)]
pub struct NotamCodes {
    /// First and last letter of the subject.
    pub subject: (char, char),
    /// First and last letter of the action.
    pub action: (char, char),
}

/// Decodes one letter group.
fn decode_letter(v: u32) -> (r: Option<char>)
    ensures
        r == letter(v),
{
    if 1 <= v && v <= 26 {
        Some(((64 + v) as u8) as char)
    } else {
        None
    }
}

/// The NOTAM codes of extra data: none when its top two bits are not clear
/// or one of the four letter groups (bits 23, 18, 13 and 8 up) is not a letter.
pub open spec fn notam_codes_of(extra_data: u32) -> Option<NotamCodes> {
    let s1 = letter((extra_data >> 23u32) & 0x1f);
    let s2 = letter((extra_data >> 18u32) & 0x1f);
    let a1 = letter((extra_data >> 13u32) & 0x1f);
    let a2 = letter((extra_data >> 8u32) & 0x1f);
    if (extra_data >> 30u32) != 0 || s1 is None || s2 is None || a1 is None || a2 is None {
        None
    } else {
        Some(NotamCodes { subject: (s1->Some_0, s2->Some_0), action: (a1->Some_0, a2->Some_0) })
    }
}

impl NotamCodes {
    /// Decodes the codes in bits 8 to 27 of an item's extra data: four
    /// five-bit letter groups, subject first. None when the top two bits are
    /// not clear or a group is not a letter.
    pub fn from_extra_data(extra_data: u32) -> (r: Option<NotamCodes>)
        ensures
            r == notam_codes_of(extra_data),
    {
        if (extra_data >> 30u32) != 0 {
            return None;
        }
        let s1 = decode_letter((extra_data >> 23u32) & 0x1f);
        let s2 = decode_letter((extra_data >> 18u32) & 0x1f);
        let a1 = decode_letter((extra_data >> 13u32) & 0x1f);
        let a2 = decode_letter((extra_data >> 8u32) & 0x1f);
        match (s1, s2, a1, a2) {
            (Some(x1), Some(x2), Some(y1), Some(y2)) => Some(
                NotamCodes { subject: (x1, x2), action: (y1, y2) },
            ),
            _ => None,
        }
    }
}

/// A NOTAM time as decoded from encoded minutes. The day runs from 1 to 31
/// whatever the month: this is a positional reading, not a calendar.
#[derive(Debug, Clone, Copy, PartialEq, Eq, PartialOrd, Ord, Structural)]
pub struct DateTime {
    pub day: u8,
    pub month: u8,
    pub year: u32,
    pub hour: u8,
    pub minute: u8,
}

/// The encoded minutes of a NOTAM time: minutes, hours, days (from 1),
/// months (from 1) and years (from 2000) as digits of radix 60, 24, 31, 12.
pub open spec fn notam_minutes(dt: DateTime) -> int {
    dt.minute + 60 * (dt.hour + 24 * ((dt.day - 1) + 31 * ((dt.month - 1) + 12 * (dt.year
        - 2000))))
}

/// Whether every field of a NOTAM time is within its digit's range.
pub open spec fn notam_time_in_range(dt: DateTime) -> bool {
    &&& dt.minute < 60
    &&& dt.hour < 24
    &&& 1 <= dt.day <= 31
    &&& 1 <= dt.month <= 12
    &&& dt.year >= 2000
}

/// The NOTAM time of encoded minutes, digit by digit.
pub open spec fn decode_notam_time_spec(e: u32) -> DateTime {
    DateTime {
        minute: (e % 60) as u8,
        hour: ((e / 60) % 24) as u8,
        day: ((e / 1440) % 31 + 1) as u8,
        month: ((e / 44640) % 12 + 1) as u8,
        year: (e / 535680 + 2000) as u32,
    }
}

/// Decodes encoded minutes into a NOTAM time.
pub fn decode_notam_time(encoded: u32) -> (r: DateTime)
    ensures
        r == decode_notam_time_spec(encoded),
        r.minute == encoded % 60,
        r.hour == (encoded / 60) % 24,
        r.day == (encoded / 1440) % 31 + 1,
        r.month == (encoded / 44640) % 12 + 1,
        r.year == encoded / 535680 + 2000,
        notam_time_in_range(r),
        notam_minutes(r) == encoded,
{
    let mut time = encoded;
    let minute = (time % 60) as u8;
    time = time / 60;
    let hour = (time % 24) as u8;
    time = time / 24;
    let day = (time % 31) as u8 + 1;
    time = time / 31;
    let month = (time % 12) as u8 + 1;
    time = time / 12;
    let year = time + 2000;
    let r = DateTime { day, month, year, hour, minute };
    proof {
        let e = encoded as int;
        assert(e == e % 60 + 60 * (e / 60)) by (nonlinear_arith);
        let t1 = e / 60;
        assert(t1 == t1 % 24 + 24 * (t1 / 24)) by (nonlinear_arith);
        let t2 = t1 / 24;
        assert(t2 == t2 % 31 + 31 * (t2 / 31)) by (nonlinear_arith);
        let t3 = t2 / 31;
        assert(t3 == t3 % 12 + 12 * (t3 / 12)) by (nonlinear_arith);
        assert(t2 == e / 1440) by {
            vstd::arithmetic::div_mod::lemma_div_denominator(e, 60, 24);
        }
        assert(t3 == e / 44640) by {
            vstd::arithmetic::div_mod::lemma_div_denominator(e, 1440, 31);
        }
        assert(t3 / 12 == e / 535680) by {
            vstd::arithmetic::div_mod::lemma_div_denominator(e, 44640, 12);
        }
    }
    r
}

/// Encodes a NOTAM time as minutes.
pub fn encode_notam_time(dt: &DateTime) -> (r: u32)
    requires
        notam_time_in_range(*dt),
        notam_minutes(*dt) <= u32::MAX,
    ensures
        r == notam_minutes(*dt),
{
    let year = (dt.year - 2000) as u64;
    let month = (dt.month - 1) as u64;
    let day = (dt.day - 1) as u64;
    let hour = dt.hour as u64;
    let minute = dt.minute as u64;
    (minute + 60 * (hour + 24 * (day + 31 * (month + 12 * year)))) as u32
}

} // verus!

verus! {

impl Default for CubStyle {
    fn default() -> (r: CubStyle)
        ensures
            r == CubStyle::Unknown,
    {
        CubStyle::Unknown
    }
}

impl Default for CubClass {
    fn default() -> (r: CubClass)
        ensures
            r == CubClass::Unknown,
    {
        CubClass::Unknown
    }
}

impl Default for AltStyle {
    fn default() -> (r: AltStyle)
        ensures
            r == AltStyle::Unknown,
    {
        AltStyle::Unknown
    }
}

impl Default for DaysActive {
    fn default() -> (r: DaysActive)
        ensures
            r.bits() == 0,
    {
        DaysActive { bits: 0 }
    }
}

} // verus!
