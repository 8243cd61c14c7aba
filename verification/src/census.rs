//! Census events as the recorder sees them: which gameplay events concern a
//! tracked character and what kind of highlight each one is, login and
//! logout detection, alert updates, and the display names of zones, bases,
//! alerts and vehicles.
use vstd::prelude::*;
use crate::text::{chars_contains, chars_of, contains_seq, decimal, is_prefix, owned, push_decimal, string_of, strip_prefix, trim, trim_chars, trim_str};

verus! {

/// What kind of thing happened to or was done by a tracked character.
#[derive(Debug, Clone, Copy, PartialEq, Eq, Structural)]
pub enum EventKind {
    Kill,
    Headshot,
    Death,
    VehicleDestroy,
    FacilityCapture,
    FacilityDefend,
    Revive,
    KillStreakBonus,
    DominationKill,
    RevengeKill,
    ControlPointDefend,
    ControlPointAttack,
    ObjectiveDestroyed,
    MultipleKill,
    VehicleRoadkill,
    MaxKill,
    NemesisKill,
    VehicleRamBonus,
    ExplosiveDestruction,
    DropPodKill,
    FacilityBombPlanted,
    FacilityBombDefused,
    FacilityTerminalHack,
    FacilityTurretHack,
    CapturePointConverted,
    PriorityKill,
    HighPriorityKill,
    MotionDetect,
    SaviorKill,
    Saved,
    ScoutRadarDetect,
    MotionSensorSpotterKill,
    BountyKill,
    BountyCashedIn,
    BountyKillStreak,
    ObjectivePulseDefend,
    ObjectivePulseCapture,
    RouterKill,
    CtfFlagCaptured,
    CtfFlagReturned,
}

/// The class a character played when an event happened.
#[derive(Debug, Clone, Copy, PartialEq, Eq, Structural)]
pub enum CharacterClass {
    Infiltrator,
    LightAssault,
    Medic,
    Engineer,
    HeavyAssault,
    Max,
}

/// The loadout a Census event names: faction and class.
#[derive(Debug, Clone, Copy, PartialEq, Eq, Structural)]
pub enum Loadout {
    NCInfiltrator,
    NCLightAssault,
    NCMedic,
    NCEngineer,
    NCHeavyAssault,
    NCMAX,
    TRInfiltrator,
    TRLightAssault,
    TRMedic,
    TREngineer,
    TRHeavyAssault,
    TRMAX,
    VSInfiltrator,
    VSLightAssault,
    VSMedic,
    VSEngineer,
    VSHeavyAssault,
    VSMAX,
    NSInfiltrator,
    NSLightAssault,
    NSMedic,
    NSEngineer,
    NSHeavyAssault,
    NSMAX,
    Unknown,
}

/// A character died. `timestamp` is in seconds since the Unix epoch.
#[derive(Debug, Clone, Copy, PartialEq, Eq, Structural)]
pub struct DeathEvent {
    pub character_id: u64,
    pub attacker_character_id: u64,
    pub is_headshot: bool,
    pub timestamp: i64,
    pub world_id: u32,
    pub zone_id: u32,
    pub attacker_weapon_id: u32,
    pub attacker_vehicle_id: u16,
    pub vehicle_id: u16,
    pub attacker_loadout_id: Loadout,
    pub character_loadout_id: Loadout,
}

/// A vehicle was destroyed.
#[derive(Debug, Clone, Copy, PartialEq, Eq, Structural)]
pub struct VehicleDestroyEvent {
    pub character_id: u64,
    pub attacker_character_id: u64,
    pub timestamp: i64,
    pub world_id: u32,
    pub zone_id: u32,
    pub facility_id: u32,
    pub attacker_weapon_id: u32,
    pub attacker_vehicle_id: u16,
    pub vehicle_id: u16,
    pub attacker_loadout_id: Loadout,
}

/// A character gained experience.
#[derive(Debug, Clone, Copy, PartialEq, Eq, Structural)]
pub struct ExperienceEvent {
    pub character_id: u64,
    pub other_id: u64,
    pub experience_id: u16,
    pub timestamp: i64,
    pub world_id: u32,
    pub zone_id: u32,
    pub loadout_id: Loadout,
}

/// A character captured or defended a facility.
#[derive(Debug, Clone, Copy, PartialEq, Eq, Structural)]
pub struct FacilityEvent {
    pub character_id: u64,
    pub timestamp: i64,
    pub world_id: u32,
    pub zone_id: u32,
    pub facility_id: u32,
}

/// An alert (metagame event) changed state.
#[derive(Debug)]
pub struct MetagameEvent {
    pub world_id: u32,
    pub zone_id: u32,
    pub instance_id: u32,
    pub metagame_event_id: u8,
    pub metagame_event_state_name: String,
    pub timestamp: i64,
}

/// An event of the Census event stream.
#[derive(Debug)]
pub enum CensusEvent {
    Death(DeathEvent),
    VehicleDestroy(VehicleDestroyEvent),
    GainExperience(ExperienceEvent),
    PlayerFacilityCapture(FacilityEvent),
    PlayerFacilityDefend(FacilityEvent),
    PlayerLogin(u64),
    PlayerLogout(u64),
    MetagameEvent(MetagameEvent),
    Other,
}

/// A gameplay event of a tracked character, as the clip rules see it.
#[derive(Debug, Clone, Copy, PartialEq, Eq, Structural)]
pub struct ClassifiedEvent {
    pub kind: EventKind,
    pub timestamp: i64,
    pub world_id: u32,
    pub zone_id: Option<u32>,
    pub facility_id: Option<u32>,
    pub actor_character_id: Option<u64>,
    pub other_character_id: Option<u64>,
    pub other_character_outfit_id: Option<u64>,
    pub characters_killed: u32,
    pub attacker_weapon_id: Option<u32>,
    pub attacker_vehicle_id: Option<u16>,
    pub vehicle_killed_id: Option<u16>,
    pub is_headshot: bool,
    pub actor_class: Option<CharacterClass>,
    pub experience_id: Option<u16>,
}

/// The highlight an experience tick stands for, if it is one.
pub open spec fn experience_kind(experience_id: u16) -> Option<EventKind> {
    match experience_id {
        7 => Some(EventKind::Revive),
        8 => Some(EventKind::KillStreakBonus),
        10 => Some(EventKind::DominationKill),
        11 => Some(EventKind::RevengeKill),
        15 => Some(EventKind::ControlPointDefend),
        16 => Some(EventKind::ControlPointAttack),
        21 => Some(EventKind::ObjectiveDestroyed),
        25 => Some(EventKind::MultipleKill),
        26 => Some(EventKind::VehicleRoadkill),
        29 => Some(EventKind::MaxKill),
        32 => Some(EventKind::NemesisKill),
        53 => Some(EventKind::Revive),
        72 => Some(EventKind::VehicleRamBonus),
        86 => Some(EventKind::ExplosiveDestruction),
        143 => Some(EventKind::DropPodKill),
        234 => Some(EventKind::FacilityBombPlanted),
        235 => Some(EventKind::FacilityBombDefused),
        236 => Some(EventKind::FacilityTerminalHack),
        237 => Some(EventKind::FacilityTurretHack),
        272 => Some(EventKind::CapturePointConverted),
        278 => Some(EventKind::PriorityKill),
        279 => Some(EventKind::HighPriorityKill),
        293 => Some(EventKind::MotionDetect),
        335 => Some(EventKind::SaviorKill),
        336 => Some(EventKind::Saved),
        353 => Some(EventKind::ScoutRadarDetect),
        370 => Some(EventKind::MotionSensorSpotterKill),
        592 => Some(EventKind::SaviorKill),
        593 => Some(EventKind::BountyKill),
        594 => Some(EventKind::BountyCashedIn),
        595 => Some(EventKind::BountyKillStreak),
        556 => Some(EventKind::ObjectivePulseDefend),
        557 => Some(EventKind::ObjectivePulseCapture),
        1409 => Some(EventKind::RouterKill),
        2133 => Some(EventKind::CtfFlagCaptured),
        2134 => Some(EventKind::CtfFlagReturned),
        _ => None,
    }
}

/// The highlight kind of an experience tick, or `None` for the ticks that
/// are no highlight.
pub fn classify_experience_event(experience_id: u16) -> (r: Option<EventKind>)
    ensures
        r == experience_kind(experience_id),
{
    match experience_id {
        7 => Some(EventKind::Revive),
        8 => Some(EventKind::KillStreakBonus),
        10 => Some(EventKind::DominationKill),
        11 => Some(EventKind::RevengeKill),
        15 => Some(EventKind::ControlPointDefend),
        16 => Some(EventKind::ControlPointAttack),
        21 => Some(EventKind::ObjectiveDestroyed),
        25 => Some(EventKind::MultipleKill),
        26 => Some(EventKind::VehicleRoadkill),
        29 => Some(EventKind::MaxKill),
        32 => Some(EventKind::NemesisKill),
        53 => Some(EventKind::Revive),
        72 => Some(EventKind::VehicleRamBonus),
        86 => Some(EventKind::ExplosiveDestruction),
        143 => Some(EventKind::DropPodKill),
        234 => Some(EventKind::FacilityBombPlanted),
        235 => Some(EventKind::FacilityBombDefused),
        236 => Some(EventKind::FacilityTerminalHack),
        237 => Some(EventKind::FacilityTurretHack),
        272 => Some(EventKind::CapturePointConverted),
        278 => Some(EventKind::PriorityKill),
        279 => Some(EventKind::HighPriorityKill),
        293 => Some(EventKind::MotionDetect),
        335 => Some(EventKind::SaviorKill),
        336 => Some(EventKind::Saved),
        353 => Some(EventKind::ScoutRadarDetect),
        370 => Some(EventKind::MotionSensorSpotterKill),
        592 => Some(EventKind::SaviorKill),
        593 => Some(EventKind::BountyKill),
        594 => Some(EventKind::BountyCashedIn),
        595 => Some(EventKind::BountyKillStreak),
        556 => Some(EventKind::ObjectivePulseDefend),
        557 => Some(EventKind::ObjectivePulseCapture),
        1409 => Some(EventKind::RouterKill),
        2133 => Some(EventKind::CtfFlagCaptured),
        2134 => Some(EventKind::CtfFlagReturned),
        _ => None,
    }
}

/// The class of a loadout, if it names one.
pub open spec fn loadout_class(loadout: Loadout) -> Option<CharacterClass> {
    match loadout {
        Loadout::NCInfiltrator | Loadout::TRInfiltrator | Loadout::VSInfiltrator
        | Loadout::NSInfiltrator => Some(CharacterClass::Infiltrator),
        Loadout::NCLightAssault | Loadout::TRLightAssault | Loadout::VSLightAssault
        | Loadout::NSLightAssault => Some(CharacterClass::LightAssault),
        Loadout::NCMedic | Loadout::TRMedic | Loadout::VSMedic | Loadout::NSMedic => Some(
            CharacterClass::Medic,
        ),
        Loadout::NCEngineer | Loadout::TREngineer | Loadout::VSEngineer | Loadout::NSEngineer => Some(
            CharacterClass::Engineer,
        ),
        Loadout::NCHeavyAssault | Loadout::TRHeavyAssault | Loadout::VSHeavyAssault
        | Loadout::NSHeavyAssault => Some(CharacterClass::HeavyAssault),
        Loadout::NCMAX | Loadout::TRMAX | Loadout::VSMAX | Loadout::NSMAX => Some(CharacterClass::Max),
        Loadout::Unknown => None,
    }
}

pub fn character_class_from_loadout(loadout: Loadout) -> (r: Option<CharacterClass>)
    ensures
        r == loadout_class(loadout),
{
    match loadout {
        Loadout::NCInfiltrator | Loadout::TRInfiltrator | Loadout::VSInfiltrator
        | Loadout::NSInfiltrator => Some(CharacterClass::Infiltrator),
        Loadout::NCLightAssault | Loadout::TRLightAssault | Loadout::VSLightAssault
        | Loadout::NSLightAssault => Some(CharacterClass::LightAssault),
        Loadout::NCMedic | Loadout::TRMedic | Loadout::VSMedic | Loadout::NSMedic => Some(
            CharacterClass::Medic,
        ),
        Loadout::NCEngineer | Loadout::TREngineer | Loadout::VSEngineer | Loadout::NSEngineer => Some(
            CharacterClass::Engineer,
        ),
        Loadout::NCHeavyAssault | Loadout::TRHeavyAssault | Loadout::VSHeavyAssault
        | Loadout::NSHeavyAssault => Some(CharacterClass::HeavyAssault),
        Loadout::NCMAX | Loadout::TRMAX | Loadout::VSMAX | Loadout::NSMAX => Some(CharacterClass::Max),
        Loadout::Unknown => None,
    }
}

pub open spec fn non_zero_u16(v: u16) -> Option<u16> {
    if v != 0 { Some(v) } else { None }
}

pub open spec fn non_zero_u32(v: u32) -> Option<u32> {
    if v != 0 { Some(v) } else { None }
}

pub open spec fn non_zero_u64(v: u64) -> Option<u64> {
    if v != 0 { Some(v) } else { None }
}

/// A vehicle id, `0` meaning none.
pub fn non_zero_vehicle_id(vehicle_id: u16) -> (r: Option<u16>)
    ensures
        r == non_zero_u16(vehicle_id),
{
    if vehicle_id != 0 { Some(vehicle_id) } else { None }
}

/// A weapon id, `0` meaning none.
pub fn non_zero_weapon_id(weapon_id: u32) -> (r: Option<u32>)
    ensures
        r == non_zero_u32(weapon_id),
{
    if weapon_id != 0 { Some(weapon_id) } else { None }
}

/// A character id, `0` meaning none.
pub fn non_zero_character_id(character_id: u64) -> (r: Option<u64>)
    ensures
        r == non_zero_u64(character_id),
{
    if character_id != 0 { Some(character_id) } else { None }
}

/// What a Census event means for the character `cid`: a kill (a headshot
/// when it was one) or a death, a vehicle it destroyed, a highlighted
/// experience tick, or a facility it captured or defended; `None` for
/// anything else.
pub open spec fn classify(event: CensusEvent, cid: u64) -> Option<ClassifiedEvent> {
    match event {
        CensusEvent::Death(d) => if d.attacker_character_id == cid && d.attacker_character_id != d.character_id {
            Some(ClassifiedEvent {
                kind: if d.is_headshot { EventKind::Headshot } else { EventKind::Kill },
                timestamp: d.timestamp,
                world_id: d.world_id,
                zone_id: Some(d.zone_id),
                facility_id: None,
                actor_character_id: Some(d.attacker_character_id),
                other_character_id: Some(d.character_id),
                other_character_outfit_id: None,
                characters_killed: 1,
                attacker_weapon_id: non_zero_u32(d.attacker_weapon_id),
                attacker_vehicle_id: non_zero_u16(d.attacker_vehicle_id),
                vehicle_killed_id: non_zero_u16(d.vehicle_id),
                is_headshot: d.is_headshot,
                actor_class: loadout_class(d.attacker_loadout_id),
                experience_id: None,
            })
        } else if d.character_id == cid {
            Some(ClassifiedEvent {
                kind: EventKind::Death,
                timestamp: d.timestamp,
                world_id: d.world_id,
                zone_id: Some(d.zone_id),
                facility_id: None,
                actor_character_id: Some(d.character_id),
                other_character_id: Some(d.attacker_character_id),
                other_character_outfit_id: None,
                characters_killed: 0,
                attacker_weapon_id: non_zero_u32(d.attacker_weapon_id),
                attacker_vehicle_id: non_zero_u16(d.attacker_vehicle_id),
                vehicle_killed_id: None,
                is_headshot: d.is_headshot,
                actor_class: loadout_class(d.character_loadout_id),
                experience_id: None,
            })
        } else {
            None
        },
        CensusEvent::VehicleDestroy(v) => if v.attacker_character_id == cid {
            Some(ClassifiedEvent {
                kind: EventKind::VehicleDestroy,
                timestamp: v.timestamp,
                world_id: v.world_id,
                zone_id: Some(v.zone_id),
                facility_id: Some(v.facility_id),
                actor_character_id: Some(v.attacker_character_id),
                other_character_id: Some(v.character_id),
                other_character_outfit_id: None,
                characters_killed: 0,
                attacker_weapon_id: non_zero_u32(v.attacker_weapon_id),
                attacker_vehicle_id: non_zero_u16(v.attacker_vehicle_id),
                vehicle_killed_id: non_zero_u16(v.vehicle_id),
                is_headshot: false,
                actor_class: loadout_class(v.attacker_loadout_id),
                experience_id: None,
            })
        } else {
            None
        },
        CensusEvent::GainExperience(x) => if x.character_id == cid {
            match experience_kind(x.experience_id) {
                Some(kind) => Some(ClassifiedEvent {
                    kind,
                    timestamp: x.timestamp,
                    world_id: x.world_id,
                    zone_id: Some(x.zone_id),
                    facility_id: None,
                    actor_character_id: Some(x.character_id),
                    other_character_id: non_zero_u64(x.other_id),
                    other_character_outfit_id: None,
                    characters_killed: 0,
                    attacker_weapon_id: None,
                    attacker_vehicle_id: None,
                    vehicle_killed_id: None,
                    is_headshot: false,
                    actor_class: loadout_class(x.loadout_id),
                    experience_id: Some(x.experience_id),
                }),
                None => None,
            }
        } else {
            None
        },
        CensusEvent::PlayerFacilityCapture(f) => if f.character_id == cid {
            Some(facility_event(EventKind::FacilityCapture, f))
        } else {
            None
        },
        CensusEvent::PlayerFacilityDefend(f) => if f.character_id == cid {
            Some(facility_event(EventKind::FacilityDefend, f))
        } else {
            None
        },
        _ => None,
    }
}

pub open spec fn facility_event(kind: EventKind, f: FacilityEvent) -> ClassifiedEvent {
    ClassifiedEvent {
        kind,
        timestamp: f.timestamp,
        world_id: f.world_id,
        zone_id: Some(f.zone_id),
        facility_id: Some(f.facility_id),
        actor_character_id: Some(f.character_id),
        other_character_id: None,
        other_character_outfit_id: None,
        characters_killed: 0,
        attacker_weapon_id: None,
        attacker_vehicle_id: None,
        vehicle_killed_id: None,
        is_headshot: false,
        actor_class: None,
        experience_id: None,
    }
}

/// Classifies a Census event for the character `character_id`.
pub fn classify_event(event: &CensusEvent, character_id: u64) -> (r: Option<ClassifiedEvent>)
    ensures
        r == classify(*event, character_id),
{
    match event {
        CensusEvent::Death(death) => {
            if death.attacker_character_id == character_id && death.attacker_character_id
                != death.character_id {
                let kind = if death.is_headshot {
                    EventKind::Headshot
                } else {
                    EventKind::Kill
                };
                Some(ClassifiedEvent {
                    kind,
                    timestamp: death.timestamp,
                    world_id: death.world_id,
                    zone_id: Some(death.zone_id),
                    facility_id: None,
                    actor_character_id: Some(death.attacker_character_id),
                    other_character_id: Some(death.character_id),
                    other_character_outfit_id: None,
                    characters_killed: 1,
                    attacker_weapon_id: non_zero_weapon_id(death.attacker_weapon_id),
                    attacker_vehicle_id: non_zero_vehicle_id(death.attacker_vehicle_id),
                    vehicle_killed_id: non_zero_vehicle_id(death.vehicle_id),
                    is_headshot: death.is_headshot,
                    actor_class: character_class_from_loadout(death.attacker_loadout_id),
                    experience_id: None,
                })
            } else if death.character_id == character_id {
                Some(ClassifiedEvent {
                    kind: EventKind::Death,
                    timestamp: death.timestamp,
                    world_id: death.world_id,
                    zone_id: Some(death.zone_id),
                    facility_id: None,
                    actor_character_id: Some(death.character_id),
                    other_character_id: Some(death.attacker_character_id),
                    other_character_outfit_id: None,
                    characters_killed: 0,
                    attacker_weapon_id: non_zero_weapon_id(death.attacker_weapon_id),
                    attacker_vehicle_id: non_zero_vehicle_id(death.attacker_vehicle_id),
                    vehicle_killed_id: None,
                    is_headshot: death.is_headshot,
                    actor_class: character_class_from_loadout(death.character_loadout_id),
                    experience_id: None,
                })
            } else {
                None
            }
        },
        CensusEvent::VehicleDestroy(vd) => {
            if vd.attacker_character_id == character_id {
                Some(ClassifiedEvent {
                    kind: EventKind::VehicleDestroy,
                    timestamp: vd.timestamp,
                    world_id: vd.world_id,
                    zone_id: Some(vd.zone_id),
                    facility_id: Some(vd.facility_id),
                    actor_character_id: Some(vd.attacker_character_id),
                    other_character_id: Some(vd.character_id),
                    other_character_outfit_id: None,
                    characters_killed: 0,
                    attacker_weapon_id: non_zero_weapon_id(vd.attacker_weapon_id),
                    attacker_vehicle_id: non_zero_vehicle_id(vd.attacker_vehicle_id),
                    vehicle_killed_id: non_zero_vehicle_id(vd.vehicle_id),
                    is_headshot: false,
                    actor_class: character_class_from_loadout(vd.attacker_loadout_id),
                    experience_id: None,
                })
            } else {
                None
            }
        },
        CensusEvent::GainExperience(xp) => {
            if xp.character_id == character_id {
                let kind = match classify_experience_event(xp.experience_id) {
                    Some(k) => k,
                    None => {
                        return None;
                    },
                };
                Some(ClassifiedEvent {
                    kind,
                    timestamp: xp.timestamp,
                    world_id: xp.world_id,
                    zone_id: Some(xp.zone_id),
                    facility_id: None,
                    actor_character_id: Some(xp.character_id),
                    other_character_id: non_zero_character_id(xp.other_id),
                    other_character_outfit_id: None,
                    characters_killed: 0,
                    attacker_weapon_id: None,
                    attacker_vehicle_id: None,
                    vehicle_killed_id: None,
                    is_headshot: false,
                    actor_class: character_class_from_loadout(xp.loadout_id),
                    experience_id: Some(xp.experience_id),
                })
            } else {
                None
            }
        },
        CensusEvent::PlayerFacilityCapture(cap) => {
            if cap.character_id == character_id {
                Some(facility_classified(EventKind::FacilityCapture, cap))
            } else {
                None
            }
        },
        CensusEvent::PlayerFacilityDefend(def) => {
            if def.character_id == character_id {
                Some(facility_classified(EventKind::FacilityDefend, def))
            } else {
                None
            }
        },
        _ => None,
    }
}

fn facility_classified(kind: EventKind, f: &FacilityEvent) -> (r: ClassifiedEvent)
    ensures
        r == facility_event(kind, *f),
{
    ClassifiedEvent {
        kind,
        timestamp: f.timestamp,
        world_id: f.world_id,
        zone_id: Some(f.zone_id),
        facility_id: Some(f.facility_id),
        actor_character_id: Some(f.character_id),
        other_character_id: None,
        other_character_outfit_id: None,
        characters_killed: 0,
        attacker_weapon_id: None,
        attacker_vehicle_id: None,
        vehicle_killed_id: None,
        is_headshot: false,
        actor_class: None,
        experience_id: None,
    }
}


/// A character found by name.
#[derive(Debug)]
pub struct CensusLookupResult {
    pub id: i64,
    pub display_name: String,
    pub world_id: Option<u32>,
    pub faction_id: Option<u32>,
}

/// An outfit found by tag or name.
#[derive(Debug)]
pub struct OutfitLookupResult {
    pub id: i64,
    pub tag: String,
    pub display_name: String,
}

/// Why a Census request failed.
#[derive(Debug)]
pub enum CensusError {
    CharacterNotFound(String),
    Api(String),
    Connection(String),
}

impl CensusError {
    pub open spec fn message_of(&self) -> Seq<char> {
        match self {
            CensusError::CharacterNotFound(s) => "character not found: "@ + s@,
            CensusError::Api(s) => "Census API error: "@ + s@,
            CensusError::Connection(s) => "Census connection error: "@ + s@,
        }
    }

    /// The message that describes the failure.
    pub fn message(&self) -> (r: String)
        ensures
            r@ == self.message_of(),
    {
        match self {
            CensusError::CharacterNotFound(s) => {
                let mut r = owned("character not found: ");
                r.push_str(s.as_str());
                r
            },
            CensusError::Api(s) => {
                let mut r = owned("Census API error: ");
                r.push_str(s.as_str());
                r
            },
            CensusError::Connection(s) => {
                let mut r = owned("Census connection error: ");
                r.push_str(s.as_str());
                r
            },
        }
    }
}

/// The name of a continent (zone).
pub open spec fn continent_text(zone_id: Option<u32>) -> Seq<char> {
    match zone_id {
        Some(id) => if id == 2 {
            "Indar"@
        } else if id == 4 {
            "Hossin"@
        } else if id == 6 {
            "Amerish"@
        } else if id == 8 {
            "Esamir"@
        } else if id == 96 {
            "VR Training"@
        } else if id == 344 {
            "Oshur"@
        } else if id == 362 {
            "Sanctuary"@
        } else {
            "Zone #"@ + decimal(id as nat)
        },
        None => "Unknown"@,
    }
}

pub fn continent_name(zone_id: Option<u32>) -> (r: String)
    ensures
        r@ == continent_text(zone_id),
{
    match zone_id {
        Some(2) => owned("Indar"),
        Some(4) => owned("Hossin"),
        Some(6) => owned("Amerish"),
        Some(8) => owned("Esamir"),
        Some(96) => owned("VR Training"),
        Some(344) => owned("Oshur"),
        Some(362) => owned("Sanctuary"),
        Some(id) => {
            let mut r = owned("Zone #");
            push_decimal(&mut r, id as u64);
            r
        },
        None => owned("Unknown"),
    }
}

/// `Facility #N` for a facility id.
pub fn base_name(facility_id: Option<u32>) -> (r: Option<String>)
    ensures
        match (facility_id, r) {
            (Some(id), Some(n)) => n@ == "Facility #"@ + decimal(id as nat),
            (None, None) => true,
            _ => false,
        },
{
    match facility_id {
        Some(id) => {
            let mut r = owned("Facility #");
            push_decimal(&mut r, id as u64);
            Some(r)
        },
        None => None,
    }
}

/// `Vehicle #N` for a vehicle id.
pub fn vehicle_name(vehicle_id: Option<u16>) -> (r: Option<String>)
    ensures
        match (vehicle_id, r) {
            (Some(id), Some(n)) => n@ == "Vehicle #"@ + decimal(id as nat),
            (None, None) => true,
            _ => false,
        },
{
    match vehicle_id {
        Some(id) => {
            let mut r = owned("Vehicle #");
            push_decimal(&mut r, id as u64);
            Some(r)
        },
        None => None,
    }
}

pub open spec fn alert_kind_text(metagame_event_id: u8) -> Seq<char> {
    if metagame_event_id == 1 {
        "Meltdown Alert"@
    } else if metagame_event_id == 2 {
        "Territory Alert"@
    } else if metagame_event_id == 3 {
        "Facility Alert"@
    } else if metagame_event_id == 4 {
        "Sudden Death Alert"@
    } else {
        "Metagame Alert"@
    }
}

/// The kind of an alert and its continent, as in `Meltdown Alert (Indar)`.
pub fn alert_label(metagame_event_id: u8, zone_id: u32) -> (r: String)
    ensures
        r@ == alert_kind_text(metagame_event_id) + " ("@ + continent_text(Some(zone_id)) + ")"@,
{
    let label = match metagame_event_id {
        1 => "Meltdown Alert",
        2 => "Territory Alert",
        3 => "Facility Alert",
        4 => "Sudden Death Alert",
        _ => "Metagame Alert",
    };
    let mut r = owned(label);
    r.push_str(" (");
    let c = continent_name(Some(zone_id));
    r.push_str(c.as_str());
    r.push_str(")");
    r
}

/// `s` without every leading copy of `p`, as `str::trim_start_matches`
/// gives it.
pub open spec fn strip_all_prefix(s: Seq<char>, p: Seq<char>) -> Seq<char>
    decreases s.len(),
{
    if p.len() > 0 && is_prefix(p, s) {
        strip_all_prefix(s.skip(p.len() as int), p)
    } else {
        s
    }
}

/// A service id with surrounding whitespace and any `s:` prefix removed,
/// `None` when nothing is left.
pub open spec fn service_id_of(s: Seq<char>) -> Option<Seq<char>> {
    let n = trim(strip_all_prefix(trim(s), "s:"@));
    if n.len() == 0 {
        None
    } else {
        Some(n)
    }
}

pub fn normalize_service_id(service_id: &str) -> (r: Option<String>)
    ensures
        match (r, service_id_of(service_id@)) {
            (Some(x), Some(y)) => x@ == y,
            (None, None) => true,
            _ => false,
        },
{
    let v = chars_of(service_id);
    let mut cur = trim_chars(&v);
    let ghost p = "s:"@;
    proof {
        reveal_strlit("s:");
    }
    loop
        invariant
            p == "s:"@,
            p.len() == 2,
            strip_all_prefix(trim(service_id@), p) == strip_all_prefix(cur@, p),
            v@ == service_id@,
        ensures
            strip_all_prefix(trim(service_id@), p) == cur@,
        decreases cur@.len(),
    {
        match strip_prefix(&cur, "s:") {
            Some(rest) => {
                cur = rest;
            },
            None => {
                break;
            },
        }
    }
    let n = trim_chars(&cur);
    if n.len() == 0 {
        None
    } else {
        Some(string_of(&n))
    }
}

/// Whether an event is the login of one of `character_ids`, and whose.
pub open spec fn login_of(event: CensusEvent, ids: Seq<u64>) -> Option<u64> {
    match event {
        CensusEvent::PlayerLogin(id) => if ids.contains(id) {
            Some(id)
        } else {
            None
        },
        _ => None,
    }
}

/// Whether an event is the logout of one of `character_ids`, and whose.
pub open spec fn logout_of(event: CensusEvent, ids: Seq<u64>) -> Option<u64> {
    match event {
        CensusEvent::PlayerLogout(id) => if ids.contains(id) {
            Some(id)
        } else {
            None
        },
        _ => None,
    }
}

fn ids_contain(ids: &Vec<u64>, id: u64) -> (r: bool)
    ensures
        r == ids@.contains(id),
{
    let mut i: usize = 0;
    while i < ids.len()
        invariant
            i <= ids.len(),
            forall|k: int| 0 <= k < i ==> ids@[k] != id,
        decreases ids.len() - i,
    {
        if ids[i] == id {
            return true;
        }
        i = i + 1;
    }
    false
}

/// The tracked character that logged in, if the event is such a login.
pub fn is_character_login(event: &CensusEvent, character_ids: &Vec<u64>) -> (r: Option<u64>)
    ensures
        r == login_of(*event, character_ids@),
{
    if let CensusEvent::PlayerLogin(id) = event {
        if ids_contain(character_ids, *id) {
            return Some(*id);
        }
    }
    None
}

/// The tracked character that logged out, if the event is such a logout.
pub fn is_character_logout(event: &CensusEvent, character_ids: &Vec<u64>) -> (r: Option<u64>)
    ensures
        r == logout_of(*event, character_ids@),
{
    if let CensusEvent::PlayerLogout(id) = event {
        if ids_contain(character_ids, *id) {
            return Some(*id);
        }
    }
    None
}

/// Where an alert is in its life.
#[derive(Debug, Clone, Copy, PartialEq, Eq, Structural)]
pub enum AlertLifecycle {
    Started,
    Updated,
    Ended,
}

/// What `str::to_lowercase` gives: the full Unicode lower-casing.
pub uninterp spec fn unicode_lowercase(s: Seq<char>) -> Seq<char>;

/// `str::to_lowercase`, whose result the contract names.
#[verifier::external_body]
pub(crate) fn to_lowercase(s: &str) -> (r: String)
    ensures
        r@ == unicode_lowercase(s@),
{
    s.to_lowercase()
}

/// What `str::to_uppercase` gives: the full Unicode upper-casing.
pub uninterp spec fn unicode_uppercase(s: Seq<char>) -> Seq<char>;

/// `str::to_uppercase`, whose result the contract names.
#[verifier::external_body]
pub(crate) fn to_uppercase(s: &str) -> (r: String)
    ensures
        r@ == unicode_uppercase(s@),
{
    s.to_uppercase()
}

/// The life stage a lower-cased state name speaks of: `start` before
/// `end` or `lock`, anything else an update.
pub open spec fn lifecycle_of(lowered: Seq<char>) -> AlertLifecycle {
    if contains_seq(lowered, "start"@) {
        AlertLifecycle::Started
    } else if contains_seq(lowered, "end"@) || contains_seq(lowered, "lock"@) {
        AlertLifecycle::Ended
    } else {
        AlertLifecycle::Updated
    }
}

/// The life stage that an already lower-cased state name speaks of.
pub fn lifecycle_from_lowered(lowered: &str) -> (r: AlertLifecycle)
    ensures
        r == lifecycle_of(lowered@),
{
    let v = chars_of(lowered);
    let start = chars_of("start");
    let end = chars_of("end");
    let lock = chars_of("lock");
    if chars_contains(&v, &start) {
        AlertLifecycle::Started
    } else if chars_contains(&v, &end) || chars_contains(&v, &lock) {
        AlertLifecycle::Ended
    } else {
        AlertLifecycle::Updated
    }
}

/// The life stage of an alert state name, read without regard to case or
/// surrounding whitespace.
pub fn metagame_event_lifecycle(state_name: &str) -> (r: AlertLifecycle)
    ensures
        r == lifecycle_of(unicode_lowercase(trim(state_name@))),
{
    let t = trim_str(state_name);
    let lowered = to_lowercase(t.as_str());
    lifecycle_from_lowered(lowered.as_str())
}

/// An alert that changed state, keyed by world, zone and instance. The
/// faction scores and the winner, which are decided on floating-point
/// shares, are not part of it.
#[derive(Debug)]
pub struct AlertUpdate {
    pub alert_key: String,
    pub world_id: u32,
    pub zone_id: u32,
    pub instance_id: u32,
    pub metagame_event_id: u8,
    pub state_name: String,
    pub lifecycle: AlertLifecycle,
    pub timestamp: i64,
}

/// `world:zone:instance`.
pub open spec fn alert_key_of(world_id: u32, zone_id: u32, instance_id: u32) -> Seq<char> {
    decimal(world_id as nat) + ":"@ + decimal(zone_id as nat) + ":"@ + decimal(instance_id as nat)
}

/// The alert update a metagame event makes; `None` for any other event.
pub fn classify_alert_update(event: &CensusEvent) -> (r: Option<AlertUpdate>)
    ensures
        match (event, r) {
            (CensusEvent::MetagameEvent(m), Some(u)) => {
                &&& u.alert_key@ == alert_key_of(m.world_id, m.zone_id, m.instance_id)
                &&& u.world_id == m.world_id
                &&& u.zone_id == m.zone_id
                &&& u.instance_id == m.instance_id
                &&& u.metagame_event_id == m.metagame_event_id
                &&& u.state_name@ == m.metagame_event_state_name@
                &&& u.lifecycle == lifecycle_of(unicode_lowercase(trim(m.metagame_event_state_name@)))
                &&& u.timestamp == m.timestamp
            },
            (CensusEvent::MetagameEvent(_), None) => false,
            (_, None) => true,
            _ => false,
        },
{
    match event {
        CensusEvent::MetagameEvent(m) => {
            let lifecycle = metagame_event_lifecycle(m.metagame_event_state_name.as_str());
            let mut key = String::new();
            push_decimal(&mut key, m.world_id as u64);
            key.push_str(":");
            push_decimal(&mut key, m.zone_id as u64);
            key.push_str(":");
            push_decimal(&mut key, m.instance_id as u64);
            assert(key@ =~= alert_key_of(m.world_id, m.zone_id, m.instance_id));
            Some(AlertUpdate {
                alert_key: key,
                world_id: m.world_id,
                zone_id: m.zone_id,
                instance_id: m.instance_id,
                metagame_event_id: m.metagame_event_id,
                state_name: owned(m.metagame_event_state_name.as_str()),
                lifecycle,
                timestamp: m.timestamp,
            })
        },
        _ => None,
    }
}

/// The first of `ids` that `event` classifies for, with its classification.
pub open spec fn first_classified(event: CensusEvent, ids: Seq<u64>) -> Option<(u64, ClassifiedEvent)>
    decreases ids.len(),
{
    if ids.len() == 0 {
        None
    } else {
        match classify(event, ids[0]) {
            Some(c) => Some((ids[0], c)),
            None => first_classified(event, ids.drop_first()),
        }
    }
}

/// What the event stream reports for one Census event.
#[derive(Debug)]
pub enum StreamEvent {
    Login { character_id: u64 },
    Logout { character_id: u64 },
    Classified { character_id: u64, event: ClassifiedEvent },
    Alert(AlertUpdate),
    Disconnected,
}

/// The kind of report `route_event` gives, without the alert's details.
pub open spec fn route_of(event: CensusEvent, ids: Seq<u64>) -> Option<StreamEvent> {
    match login_of(event, ids) {
        Some(id) => Some(StreamEvent::Login { character_id: id }),
        None => match logout_of(event, ids) {
            Some(id) => Some(StreamEvent::Logout { character_id: id }),
            None => match event {
                CensusEvent::MetagameEvent(_) => None,
                _ => match first_classified(event, ids) {
                    Some((id, c)) => Some(StreamEvent::Classified { character_id: id, event: c }),
                    None => None,
                },
            },
        },
    }
}

/// What the event stream reports for `event`: a login or logout of a
/// tracked character first, then an alert update, then the classification
/// for the first tracked character it concerns; `None` when it concerns
/// none.
pub fn route_event(event: &CensusEvent, character_ids: &Vec<u64>) -> (r: Option<StreamEvent>)
    ensures
        match event {
            CensusEvent::MetagameEvent(m) => r matches Some(StreamEvent::Alert(u)) && u.alert_key@
                == alert_key_of(m.world_id, m.zone_id, m.instance_id) && u.lifecycle == lifecycle_of(
                unicode_lowercase(trim(m.metagame_event_state_name@))) && u.timestamp == m.timestamp
                && u.metagame_event_id == m.metagame_event_id,
            _ => r == route_of(*event, character_ids@),
        },
{
    if let Some(id) = is_character_login(event, character_ids) {
        return Some(StreamEvent::Login { character_id: id });
    }
    if let Some(id) = is_character_logout(event, character_ids) {
        return Some(StreamEvent::Logout { character_id: id });
    }
    if let Some(alert) = classify_alert_update(event) {
        return Some(StreamEvent::Alert(alert));
    }
    let mut i: usize = 0;
    assert(character_ids@.skip(0) =~= character_ids@);
    while i < character_ids.len()
        invariant
            i <= character_ids.len(),
            !(event is MetagameEvent),
            first_classified(*event, character_ids@) == first_classified(*event, character_ids@.skip(i as int)),
        decreases character_ids.len() - i,
    {
        let cid = character_ids[i];
        proof {
            let s = character_ids@.skip(i as int);
            assert(s[0] == cid);
            assert(s.drop_first() =~= character_ids@.skip(i + 1));
        }
        if let Some(c) = classify_event(event, cid) {
            return Some(StreamEvent::Classified { character_id: cid, event: c });
        }
        i = i + 1;
    }
    assert(character_ids@.skip(i as int) =~= seq![]);
    None
}

/// A classified event is always the tracked character's own: it names that
/// character as the one who acted, and it never pairs a character with
/// itself as victim of its own kill.
pub proof fn lemma_classified_event_is_the_characters(event: CensusEvent, cid: u64)
    ensures
        classify(event, cid) matches Some(e) ==> e.actor_character_id == Some(cid),
        classify(event, cid) matches Some(e) ==> (e.kind == EventKind::Kill || e.kind == EventKind::Headshot)
            ==> e.other_character_id != Some(cid),
{
}

/// The stream reports a classified event only for one of the tracked
/// characters, and names that character as the event's actor.
pub proof fn lemma_routed_events_belong_to_tracked_characters(event: CensusEvent, ids: Seq<u64>)
    ensures
        first_classified(event, ids) matches Some((cid, e)) ==> ids.contains(cid) && e.actor_character_id == Some(cid),
    decreases ids.len(),
{
    if ids.len() > 0 {
        match classify(event, ids[0]) {
            Some(c) => {
                lemma_classified_event_is_the_characters(event, ids[0]);
                assert(ids[0] == ids[0]);
                assert(ids.contains(ids[0]));
            },
            None => {
                lemma_routed_events_belong_to_tracked_characters(event, ids.drop_first());
                if let Some((cid, e)) = first_classified(event, ids.drop_first()) {
                    let k = choose|k: int| 0 <= k < ids.drop_first().len() && ids.drop_first()[k] == cid;
                    assert(ids[k + 1] == cid);
                }
            },
        }
    }
}

/// How a death is classified for the character `cid`: when `cid` killed
/// someone else, a kill that counts one character and names the victim,
/// of kind `Headshot` exactly when the death was a headshot and `Kill`
/// exactly when it was not; when `cid` died (its own doing included), a
/// `Death` naming the attacker; otherwise nothing. Either way the headshot
/// flag is the death's.
pub proof fn lemma_death_classification(d: DeathEvent, cid: u64)
    ensures
        d.attacker_character_id == cid && d.character_id != cid ==> (classify(CensusEvent::Death(d), cid) matches Some(e)
            && {
            &&& (e.kind == EventKind::Headshot <==> d.is_headshot)
            &&& (e.kind == EventKind::Kill <==> !d.is_headshot)
            &&& e.characters_killed == 1
            &&& e.other_character_id == Some(d.character_id)
        }),
        d.character_id == cid ==> (classify(CensusEvent::Death(d), cid) matches Some(e) && e.kind == EventKind::Death
            && e.other_character_id == Some(d.attacker_character_id) && e.characters_killed == 0),
        d.attacker_character_id != cid && d.character_id != cid ==> classify(CensusEvent::Death(d), cid) is None,
        classify(CensusEvent::Death(d), cid) matches Some(e) ==> e.is_headshot == d.is_headshot,
{
}

} // verus!
