use vstd::prelude::*;
use vstd::string::*;

verus! {

// Coded values of the navigation data rows. Each enum mirrors one coded
// column of the database; the code letters are documented on the app side,
// where the rows are read.
#[derive(Clone, Copy, Debug, PartialEq, Eq, Structural, Default)]
pub enum IfrCapability {
    Yes,
    No,
    #[default]
    Unknown,
}

#[derive(Clone, Copy, Debug, PartialEq, Eq, Structural)]
pub enum RunwaySurfaceCode {
    Hard,
    Soft,
    Water,
    Unknown,
}

#[derive(Clone, Copy, Debug, PartialEq, Eq, Structural)]
pub enum AirwayRouteType {
    Control,
    DirectRoute,
    HelicopterRoute,
    OfficialDesignatedAirwaysExpectRnavAirways,
    RnavAirways,
    UndesignatedAtsRoute,
    Unknown,
}

#[derive(Clone, Copy, Debug, PartialEq, Eq, Structural)]
pub enum AirwayLevel {
    Both,
    High,
    Low,
    Unknown,
}

#[derive(Clone, Copy, Debug, PartialEq, Eq, Structural)]
pub enum AirwayDirection {
    Forward,
    Backward,
}

#[derive(Clone, Copy, Debug, PartialEq, Eq, Structural)]
pub enum TurnDirection {
    Left,
    Right,
    Either,
}

#[derive(Clone, Copy, Debug, PartialEq, Eq, Structural)]
pub enum AltitudeDescriptor {
    AtAlt1,
    AtOrAboveAlt1,
    AtOrBelowAlt1,
    BetweenAlt1Alt2,
    AtOrAboveAlt2,
    AtAlt1GsMslAlt2,
    AtOrAboveAlt1GsMslAlt2,
    AtAlt1GsInterceptAlt2,
    AtOrAboveAlt1GsInterceptAlt2,
    AtOrAboveAlt1AngleAlt2,
    AtAlt1AngleAlt2,
    AtOrBelowAlt1AngleAlt2,
    Unknown,
}

#[derive(Clone, Copy, Debug, PartialEq, Eq, Structural)]
pub enum SpeedDescriptor {
    Mandatory,
    Minimum,
    Maximum,
    Unknown,
}

#[derive(Clone, Copy, Debug, PartialEq, Eq, Structural)]
pub enum LegType {
    IF,
    TF,
    CF,
    DF,
    FA,
    FC,
    FD,
    FM,
    CA,
    CD,
    CI,
    CR,
    RF,
    AF,
    VA,
    VD,
    VI,
    VM,
    VR,
    PI,
    HA,
    HF,
    HM,
}

#[derive(Clone, Copy, Debug, PartialEq, Eq, Structural)]
pub enum ApproachType {
    LocBackcourse,
    VorDme,
    Fms,
    Igs,
    Ils,
    Gls,
    Loc,
    Mls,
    Ndb,
    Gps,
    NdbDme,
    Rnav,
    Vortac,
    Tacan,
    Sdf,
    Vor,
    MlsTypeA,
    Lda,
    MlsTypeBC,
}

#[derive(Clone, Copy, Debug, PartialEq, Eq, Structural)]
pub enum ControlledAirspaceType {
    ClassC,
    ControlArea,
    TmaOrTca,
    IcaoTerminalControlArea,
    MilitaryControlZone,
    RadarZone,
    ClassB,
    TerminalControlArea,
    TerminalArea,
    TerminalRadarServiceArea,
    ClassD,
}

#[derive(Clone, Copy, Debug, PartialEq, Eq, Structural)]
pub enum RestrictiveAirspaceType {
    AdvisoryArea,
    Alert,
    BufferZone,
    Caution,
    CrossBorderArea,
    Danger,
    Military,
    Prohibited,
    Restricted,
    TemporaryReserveArea,
    Training,
    TemporarySegregatedArea,
    Warning,
    Unknown,
}

#[derive(Clone, Copy, Debug, PartialEq, Eq, Structural, Default)]
pub enum CommunicationType {
    AreaControlCenter,
    AirliftCommandPost,
    AirToAir,
    ApproachControl,
    ArrivalControl,
    AutomaticSurfaceObservingSystem,
    AutomaticTerminalInformationServices,
    AirportWeatherInformationBroadcast,
    AutomaticWeatherObservingBroadcast,
    AerodromeWeatherInformationService,
    ClearanceDelivery,
    ClearancePreTaxi,
    ControlArea,
    Control,
    DepartureControl,
    Director,
    EnrouteFlightAdvisoryService,
    Emergency,
    FlightServiceStation,
    GroundCommOutlet,
    GroundControl,
    GateControl,
    HelicopterFrequency,
    Information,
    MilitaryFrequency,
    Multicom,
    Operations,
    PilotActivatedLighting,
    Radio,
    Radar,
    RemoteFlightServiceStation,
    RampTaxiControl,
    AirportRadarServiceArea,
    /// Terminal Control Area (TCA)
    Tca,
    /// Terminal Control Area (TMA)
    Tma,
    Terminal,
    TerminalRadarServiceArea,
    TranscriberWeatherBroadcast,
    Tower,
    UpperAreaControl,
    #[default]
    Unicom,
    Volmet,
}

#[derive(Clone, Copy, Debug, PartialEq, Eq, Structural, Default)]
pub enum FrequencyUnits {
    High,
    VeryHigh,
    UltraHigh,
    /// Communication channel for 8.33 kHz spacing
    #[default]
    CommChannel,
}

#[derive(Clone, Copy, Debug, PartialEq, Eq, Structural, Default)]
pub enum ApproachTypeIdentifier {
    LocalizerPerformanceVerticalGuidance,
    #[default]
    LocalizerPerformance,
}

#[derive(Clone, Copy, Debug, PartialEq, Eq, Structural)]
pub enum TrafficPattern {
    Left,
    Right,
}

#[derive(Clone, Copy, Debug, PartialEq, Eq, Structural)]
pub enum RunwayLights {
    Yes,
    No,
}

#[derive(Clone, Copy, Debug, PartialEq, Eq, Structural)]
pub enum RunwaySurface {
    Gravel,
    Unpaved,
    Asphalt,
    Turf,
    Dirt,
    Concrete,
    Water,
    Sand,
    Coral,
    Paved,
    Grass,
    Bitumen,
    Planking,
    Clay,
    Ice,
    Silt,
    Laterite,
    Tarmac,
    Macadam,
    Sealed,
    Soil,
    Brick,
    Unknown,
    Mats,
    Snow,
    Treated,
}

#[derive(Clone, Copy, Debug, PartialEq, Eq, Structural)]
pub enum ProcedureTypeApproved {
    Yes,
    No,
}

#[derive(Clone, Copy, Debug, PartialEq, Eq, Structural)]
pub enum AuthorizationRequired {
    Yes,
    No,
}
/// The one-letter code of each approach type, as it appears in the route type
/// column of approach rows.
pub open spec fn approach_type_code(t: ApproachType) -> char {
    match t {
        ApproachType::LocBackcourse => 'B',
        ApproachType::VorDme => 'D',
        ApproachType::Fms => 'F',
        ApproachType::Igs => 'G',
        ApproachType::Ils => 'I',
        ApproachType::Gls => 'J',
        ApproachType::Loc => 'L',
        ApproachType::Mls => 'M',
        ApproachType::Ndb => 'N',
        ApproachType::Gps => 'P',
        ApproachType::NdbDme => 'Q',
        ApproachType::Rnav => 'R',
        ApproachType::Vortac => 'S',
        ApproachType::Tacan => 'T',
        ApproachType::Sdf => 'U',
        ApproachType::Vor => 'V',
        ApproachType::MlsTypeA => 'W',
        ApproachType::Lda => 'X',
        ApproachType::MlsTypeBC => 'Y',
    }
}

/// The approach type codes of the navigation data: `B` localizer back
/// course, `D` VOR/DME, `F` FMS, `G` IGS, `I` ILS, `J` GLS, `L` localizer,
/// `M` MLS, `N` NDB, `P` GPS, `Q` NDB/DME, `R` RNAV, `S` VORTAC, `T` TACAN,
/// `U` SDF, `V` VOR, `W` MLS type A, `X` LDA, `Y` MLS type B/C; and no two
/// approach types share a code.
pub proof fn lemma_approach_type_codes()
    ensures
        approach_type_code(ApproachType::LocBackcourse) == 'B',
        approach_type_code(ApproachType::VorDme) == 'D',
        approach_type_code(ApproachType::Fms) == 'F',
        approach_type_code(ApproachType::Igs) == 'G',
        approach_type_code(ApproachType::Ils) == 'I',
        approach_type_code(ApproachType::Gls) == 'J',
        approach_type_code(ApproachType::Loc) == 'L',
        approach_type_code(ApproachType::Mls) == 'M',
        approach_type_code(ApproachType::Ndb) == 'N',
        approach_type_code(ApproachType::Gps) == 'P',
        approach_type_code(ApproachType::NdbDme) == 'Q',
        approach_type_code(ApproachType::Rnav) == 'R',
        approach_type_code(ApproachType::Vortac) == 'S',
        approach_type_code(ApproachType::Tacan) == 'T',
        approach_type_code(ApproachType::Sdf) == 'U',
        approach_type_code(ApproachType::Vor) == 'V',
        approach_type_code(ApproachType::MlsTypeA) == 'W',
        approach_type_code(ApproachType::Lda) == 'X',
        approach_type_code(ApproachType::MlsTypeBC) == 'Y',
        forall|a: ApproachType, b: ApproachType| approach_type_code(a) == approach_type_code(b) ==> a == b,
{
}

impl ApproachType {
    /// The approach type whose code is `code`, if there is one.
    pub fn from_code(code: &str) -> (res: Option<ApproachType>)
        ensures
            match res {
                Some(t) => code@ == seq![approach_type_code(t)],
                None => forall|t: ApproachType| code@ != seq![approach_type_code(t)],
            },
            code@ == seq!['B'] ==> res == Some(ApproachType::LocBackcourse),
            code@ == seq!['D'] ==> res == Some(ApproachType::VorDme),
            code@ == seq!['F'] ==> res == Some(ApproachType::Fms),
            code@ == seq!['G'] ==> res == Some(ApproachType::Igs),
            code@ == seq!['I'] ==> res == Some(ApproachType::Ils),
            code@ == seq!['J'] ==> res == Some(ApproachType::Gls),
            code@ == seq!['L'] ==> res == Some(ApproachType::Loc),
            code@ == seq!['M'] ==> res == Some(ApproachType::Mls),
            code@ == seq!['N'] ==> res == Some(ApproachType::Ndb),
            code@ == seq!['P'] ==> res == Some(ApproachType::Gps),
            code@ == seq!['Q'] ==> res == Some(ApproachType::NdbDme),
            code@ == seq!['R'] ==> res == Some(ApproachType::Rnav),
            code@ == seq!['S'] ==> res == Some(ApproachType::Vortac),
            code@ == seq!['T'] ==> res == Some(ApproachType::Tacan),
            code@ == seq!['U'] ==> res == Some(ApproachType::Sdf),
            code@ == seq!['V'] ==> res == Some(ApproachType::Vor),
            code@ == seq!['W'] ==> res == Some(ApproachType::MlsTypeA),
            code@ == seq!['X'] ==> res == Some(ApproachType::Lda),
            code@ == seq!['Y'] ==> res == Some(ApproachType::MlsTypeBC),
    {
        if code.unicode_len() != 1 {
            proof {
                assert forall|t: ApproachType| code@ != seq![approach_type_code(t)] by {
                    assert(seq![approach_type_code(t)].len() == 1);
                }
            }
            return None;
        }
        let c = code.get_char(0);
        let res = match c {
            'B' => Some(ApproachType::LocBackcourse),
            'D' => Some(ApproachType::VorDme),
            'F' => Some(ApproachType::Fms),
            'G' => Some(ApproachType::Igs),
            'I' => Some(ApproachType::Ils),
            'J' => Some(ApproachType::Gls),
            'L' => Some(ApproachType::Loc),
            'M' => Some(ApproachType::Mls),
            'N' => Some(ApproachType::Ndb),
            'P' => Some(ApproachType::Gps),
            'Q' => Some(ApproachType::NdbDme),
            'R' => Some(ApproachType::Rnav),
            'S' => Some(ApproachType::Vortac),
            'T' => Some(ApproachType::Tacan),
            'U' => Some(ApproachType::Sdf),
            'V' => Some(ApproachType::Vor),
            'W' => Some(ApproachType::MlsTypeA),
            'X' => Some(ApproachType::Lda),
            'Y' => Some(ApproachType::MlsTypeBC),
            _ => None,
        };
        proof {
            assert(code@ =~= seq![c]);
            assert forall|t: ApproachType| res is None implies code@ != seq![approach_type_code(t)] by {
                assert(seq![approach_type_code(t)][0] == approach_type_code(t));
            }
        }
        res
    }
}

} // verus!
