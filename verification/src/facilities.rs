//! ATC facilities of the Bay Area: the facility table, display labels and lookup
//! by name and by frequency.

use vstd::prelude::*;
use crate::text::str_eq;

verus! {

/// Kind of an ATC facility.
#[derive(Clone, Copy, Debug, PartialEq, Eq, Structural)]
pub enum FacilityType {
    Approach,
    Tower,
}

/// A runway in use: its designator and magnetic heading in whole degrees.
#[derive(Clone, Copy, Debug)]
pub struct Runway {
    pub designator: &'static str,
    pub heading: u32,
}

/// An ATC facility: name, radio callsign, kind, frequency in kHz, the airport it
/// serves (none for the approach control), position as (latitude, longitude) in
/// millionths of a degree, and the runways in use.
#[derive(Debug)]
pub struct AtcFacility {
    pub name: &'static str,
    pub callsign: &'static str,
    pub facility_type: FacilityType,
    pub frequency_khz: u32,
    pub airport_ident: Option<&'static str>,
    pub position_microdeg: (i32, i32),
    pub active_runways: Vec<Runway>,
}

/// Short label shown in the radio log for a facility name.
pub open spec fn display_short_s(name: Seq<char>) -> Seq<char> {
    if name == "NorCal Approach"@ {
        "NorCal"@
    } else if name == "SFO Tower"@ {
        "SFO TWR"@
    } else if name == "OAK Tower"@ {
        "OAK TWR"@
    } else if name == "SJC Tower"@ {
        "SJC TWR"@
    } else if name == "HWD Tower"@ {
        "HWD TWR"@
    } else if name == "PAO Tower"@ {
        "PAO TWR"@
    } else if name == "SQL Tower"@ {
        "SQL TWR"@
    } else {
        name
    }
}

proof fn lemma_tower_label(code: &'static str, name: &'static str, label: &'static str)
    requires
        code@.len() == 3,
        name@ == code@ + " Tower"@,
        label@ == code@ + " TWR"@,
    ensures
        name@.len() == 9,
        name@.skip(3) == " Tower"@,
        label@ == name@.take(3) + " TWR"@,
{
    reveal_strlit(" Tower");
    assert(name@.skip(3) =~= " Tower"@);
    assert(name@.take(3) =~= code@);
}

/// What a label keeps of a name: a name is shown as it is, except NorCal Approach,
/// shown as "NorCal", and the towers, shown as the three-letter code their name starts
/// with followed by " TWR".
pub proof fn labels_keep_the_tower_code(name: Seq<char>)
    ensures
        display_short_s(name) == name || (name == "NorCal Approach"@ && display_short_s(name)
            == "NorCal"@) || (name.len() == 9 && name.skip(3) == " Tower"@ && display_short_s(name)
            == name.take(3) + " TWR"@),
{
    reveal_strlit(" Tower");
    reveal_strlit(" TWR");
    reveal_strlit("SFO");
    reveal_strlit("OAK");
    reveal_strlit("SJC");
    reveal_strlit("HWD");
    reveal_strlit("PAO");
    reveal_strlit("SQL");
    reveal_strlit("SFO Tower");
    reveal_strlit("OAK Tower");
    reveal_strlit("SJC Tower");
    reveal_strlit("HWD Tower");
    reveal_strlit("PAO Tower");
    reveal_strlit("SQL Tower");
    reveal_strlit("SFO TWR");
    reveal_strlit("OAK TWR");
    reveal_strlit("SJC TWR");
    reveal_strlit("HWD TWR");
    reveal_strlit("PAO TWR");
    reveal_strlit("SQL TWR");
    assert("SFO Tower"@ =~= "SFO"@ + " Tower"@ && "SFO TWR"@ =~= "SFO"@ + " TWR"@);
    assert("OAK Tower"@ =~= "OAK"@ + " Tower"@ && "OAK TWR"@ =~= "OAK"@ + " TWR"@);
    assert("SJC Tower"@ =~= "SJC"@ + " Tower"@ && "SJC TWR"@ =~= "SJC"@ + " TWR"@);
    assert("HWD Tower"@ =~= "HWD"@ + " Tower"@ && "HWD TWR"@ =~= "HWD"@ + " TWR"@);
    assert("PAO Tower"@ =~= "PAO"@ + " Tower"@ && "PAO TWR"@ =~= "PAO"@ + " TWR"@);
    assert("SQL Tower"@ =~= "SQL"@ + " Tower"@ && "SQL TWR"@ =~= "SQL"@ + " TWR"@);
    lemma_tower_label("SFO", "SFO Tower", "SFO TWR");
    lemma_tower_label("OAK", "OAK Tower", "OAK TWR");
    lemma_tower_label("SJC", "SJC Tower", "SJC TWR");
    lemma_tower_label("HWD", "HWD Tower", "HWD TWR");
    lemma_tower_label("PAO", "PAO Tower", "PAO TWR");
    lemma_tower_label("SQL", "SQL Tower", "SQL TWR");
}

proof fn lemma_table_labels(fs: Seq<AtcFacility>)
    requires
        is_bay_area_table(fs),
    ensures
        display_short_s(fs[0].name@) == "NorCal"@,
        display_short_s(fs[1].name@) == "SFO TWR"@,
        display_short_s(fs[2].name@) == "OAK TWR"@,
        display_short_s(fs[3].name@) == "SJC TWR"@,
        display_short_s(fs[4].name@) == "HWD TWR"@,
        display_short_s(fs[5].name@) == "PAO TWR"@,
        display_short_s(fs[6].name@) == "SQL TWR"@,
        fs[0].facility_type == FacilityType::Approach,
        forall|k: int|
            1 <= k < 7 ==> (#[trigger] fs[k].name@).len() == 9 && display_short_s(fs[k].name@).len() == 7
                && fs[k].facility_type == FacilityType::Tower,
        forall|a: int, b: int|
            0 <= a < 7 && 0 <= b < 7 && a != b ==> #[trigger] display_short_s(fs[a].name@)
                != #[trigger] display_short_s(fs[b].name@),
{
    reveal(is_bay_area_table);
    reveal_strlit("NorCal Approach");
    reveal_strlit("SFO Tower");
    reveal_strlit("OAK Tower");
    reveal_strlit("SJC Tower");
    reveal_strlit("HWD Tower");
    reveal_strlit("PAO Tower");
    reveal_strlit("SQL Tower");
    reveal_strlit("NorCal");
    reveal_strlit("SFO TWR");
    reveal_strlit("OAK TWR");
    reveal_strlit("SJC TWR");
    reveal_strlit("HWD TWR");
    reveal_strlit("PAO TWR");
    reveal_strlit("SQL TWR");
    let names = seq![
        "NorCal Approach"@,
        "SFO Tower"@,
        "OAK Tower"@,
        "SJC Tower"@,
        "HWD Tower"@,
        "PAO Tower"@,
        "SQL Tower"@,
    ];
    let labels = seq![
        "NorCal"@,
        "SFO TWR"@,
        "OAK TWR"@,
        "SJC TWR"@,
        "HWD TWR"@,
        "PAO TWR"@,
        "SQL TWR"@,
    ];
    assert forall|k: int| 0 <= k < 7 implies names[k][0] == labels[k][0] && names[k][1] == labels[k][1]
        && names[k][2] == labels[k][2] by {}
    assert(names[1][1] != names[2][1] && names[1][1] != names[3][1] && names[1][1] != names[4][1]
        && names[1][1] != names[5][1] && names[1][1] != names[6][1]);
    assert(names[2][0] != names[3][0] && names[2][0] != names[4][0] && names[2][0] != names[6][0]
        && names[2][0] != names[5][0]);
    assert(names[3][0] != names[4][0] && names[3][0] != names[5][0] && names[3][1] != names[6][1]);
    assert(names[4][0] != names[5][0] && names[4][0] != names[6][0]);
    assert(names[5][0] != names[6][0]);
    assert(names[0].len() != names[1].len());
    assert(fs[0].name@ == names[0] && fs[1].name@ == names[1] && fs[2].name@ == names[2]);
    assert(fs[3].name@ == names[3] && fs[4].name@ == names[4] && fs[5].name@ == names[5]);
    assert(fs[6].name@ == names[6]);
    assert(labels[0].len() != labels[1].len());
    assert(labels[1][1] != labels[2][1] && labels[1][1] != labels[3][1] && labels[1][1] != labels[4][1]
        && labels[1][1] != labels[5][1] && labels[1][1] != labels[6][1]);
    assert(labels[2][0] != labels[3][0] && labels[2][0] != labels[4][0] && labels[2][0] != labels[6][0]
        && labels[2][0] != labels[5][0]);
    assert(labels[3][0] != labels[4][0] && labels[3][0] != labels[5][0] && labels[3][1] != labels[6][1]);
    assert(labels[4][0] != labels[5][0] && labels[4][0] != labels[6][0]);
    assert(labels[5][0] != labels[6][0]);
}

/// In the Bay Area table, each tower is labelled with the code its name starts with and
/// " TWR", the approach control "NorCal", and no two facilities share a label.
pub proof fn bay_area_labels_are_distinct(fs: Seq<AtcFacility>, i: int, j: int)
    requires
        is_bay_area_table(fs),
        0 <= i < fs.len(),
        0 <= j < fs.len(),
    ensures
        fs[i].facility_type == FacilityType::Tower ==> display_short_s(fs[i].name@) == fs[i].name@.take(3)
            + " TWR"@,
        fs[i].facility_type == FacilityType::Approach ==> display_short_s(fs[i].name@) == "NorCal"@,
        i != j ==> display_short_s(fs[i].name@) != display_short_s(fs[j].name@),
{
    lemma_table_labels(fs);
    labels_keep_the_tower_code(fs[i].name@);
    reveal(is_bay_area_table);
    reveal_strlit("NorCal Approach");
    if i >= 1 {
        assert(fs[i].name@.len() == 9);
        assert(display_short_s(fs[i].name@).len() == 7);
        assert("NorCal Approach"@.len() == 15);
    }
}

impl AtcFacility {
    /// Short display name for the radio log: "SFO TWR", "NorCal"; other names are
    /// shown as they are.
    pub fn display_short(&self) -> (r: &'static str)
        ensures
            r@ == display_short_s(self.name@),
    {
        let name = self.name;
        if str_eq(name, "NorCal Approach") {
            "NorCal"
        } else if str_eq(name, "SFO Tower") {
            "SFO TWR"
        } else if str_eq(name, "OAK Tower") {
            "OAK TWR"
        } else if str_eq(name, "SJC Tower") {
            "SJC TWR"
        } else if str_eq(name, "HWD Tower") {
            "HWD TWR"
        } else if str_eq(name, "PAO Tower") {
            "PAO TWR"
        } else if str_eq(name, "SQL Tower") {
            "SQL TWR"
        } else {
            name
        }
    }
}

/// The airport a facility serves, by its text.
pub open spec fn ident_is(o: Option<&'static str>, ident: Option<Seq<char>>) -> bool {
    match (o, ident) {
        (Some(a), Some(b)) => a@ == b,
        (None, None) => true,
        _ => false,
    }
}

/// A facility holds these values, its runways aside.
pub open spec fn facility_is(
    f: AtcFacility,
    name: Seq<char>,
    callsign: Seq<char>,
    kind: FacilityType,
    khz: u32,
    ident: Option<Seq<char>>,
    lat: int,
    lon: int,
) -> bool {
    &&& f.name@ == name
    &&& f.callsign@ == callsign
    &&& f.facility_type == kind
    &&& f.frequency_khz == khz
    &&& ident_is(f.airport_ident, ident)
    &&& f.position_microdeg.0 == lat
    &&& f.position_microdeg.1 == lon
}

/// The `i`-th runway in use at `f` has this designator and heading.
pub open spec fn runway_is(f: AtcFacility, i: int, designator: Seq<char>, heading: u32) -> bool {
    &&& 0 <= i < f.active_runways@.len()
    &&& f.active_runways@[i].designator@ == designator
    &&& f.active_runways@[i].heading == heading
}

/// The Bay Area facilities: NorCal Approach, then the towers of SFO, Oakland,
/// San Jose, Hayward, Palo Alto and San Carlos, each with its runways in use.
#[verifier::opaque]
pub open spec fn is_bay_area_table(fs: Seq<AtcFacility>) -> bool {
    &&& fs.len() == 7
    &&& facility_is(fs[0], "NorCal Approach"@, "NorCal Approach"@, FacilityType::Approach, 135650, None, 37_700_000, -122_200_000)
    &&& fs[0].active_runways@.len() == 0
    &&& facility_is(fs[1], "SFO Tower"@, "San Francisco Tower"@, FacilityType::Tower, 120500, Some("KSFO"@), 37_621_300, -122_379_000)
    &&& fs[1].active_runways@.len() == 2
    &&& runway_is(fs[1], 0, "28L"@, 280)
    &&& runway_is(fs[1], 1, "28R"@, 280)
    &&& facility_is(fs[2], "OAK Tower"@, "Oakland Tower"@, FacilityType::Tower, 118300, Some("KOAK"@), 37_721_300, -122_220_800)
    &&& fs[2].active_runways@.len() == 1
    &&& runway_is(fs[2], 0, "30"@, 300)
    &&& facility_is(fs[3], "SJC Tower"@, "San Jose Tower"@, FacilityType::Tower, 124000, Some("KSJC"@), 37_362_600, -121_929_100)
    &&& fs[3].active_runways@.len() == 1
    &&& runway_is(fs[3], 0, "30L"@, 300)
    &&& facility_is(fs[4], "HWD Tower"@, "Hayward Tower"@, FacilityType::Tower, 120200, Some("KHWD"@), 37_659_200, -122_121_700)
    &&& fs[4].active_runways@.len() == 1
    &&& runway_is(fs[4], 0, "28L"@, 280)
    &&& facility_is(fs[5], "PAO Tower"@, "Palo Alto Tower"@, FacilityType::Tower, 118600, Some("KPAO"@), 37_461_100, -122_115_000)
    &&& fs[5].active_runways@.len() == 1
    &&& runway_is(fs[5], 0, "31"@, 310)
    &&& facility_is(fs[6], "SQL Tower"@, "San Carlos Tower"@, FacilityType::Tower, 119200, Some("KSQL"@), 37_511_900, -122_249_400)
    &&& fs[6].active_runways@.len() == 1
    &&& runway_is(fs[6], 0, "30"@, 300)
}

/// Build all Bay Area ATC facilities.
pub fn build_facilities() -> (r: Vec<AtcFacility>)
    ensures
        is_bay_area_table(r@),
{
    let r = vec![
        AtcFacility {
            name: "NorCal Approach",
            callsign: "NorCal Approach",
            facility_type: FacilityType::Approach,
            frequency_khz: 135650,
            airport_ident: None,
            position_microdeg: (37_700_000, -122_200_000),
            active_runways: vec![],
        },
        AtcFacility {
            name: "SFO Tower",
            callsign: "San Francisco Tower",
            facility_type: FacilityType::Tower,
            frequency_khz: 120500,
            airport_ident: Some("KSFO"),
            position_microdeg: (37_621_300, -122_379_000),
            active_runways: vec![
                Runway { designator: "28L", heading: 280 },
                Runway { designator: "28R", heading: 280 },
            ],
        },
        AtcFacility {
            name: "OAK Tower",
            callsign: "Oakland Tower",
            facility_type: FacilityType::Tower,
            frequency_khz: 118300,
            airport_ident: Some("KOAK"),
            position_microdeg: (37_721_300, -122_220_800),
            active_runways: vec![Runway { designator: "30", heading: 300 }],
        },
        AtcFacility {
            name: "SJC Tower",
            callsign: "San Jose Tower",
            facility_type: FacilityType::Tower,
            frequency_khz: 124000,
            airport_ident: Some("KSJC"),
            position_microdeg: (37_362_600, -121_929_100),
            active_runways: vec![Runway { designator: "30L", heading: 300 }],
        },
        AtcFacility {
            name: "HWD Tower",
            callsign: "Hayward Tower",
            facility_type: FacilityType::Tower,
            frequency_khz: 120200,
            airport_ident: Some("KHWD"),
            position_microdeg: (37_659_200, -122_121_700),
            active_runways: vec![Runway { designator: "28L", heading: 280 }],
        },
        AtcFacility {
            name: "PAO Tower",
            callsign: "Palo Alto Tower",
            facility_type: FacilityType::Tower,
            frequency_khz: 118600,
            airport_ident: Some("KPAO"),
            position_microdeg: (37_461_100, -122_115_000),
            active_runways: vec![Runway { designator: "31", heading: 310 }],
        },
        AtcFacility {
            name: "SQL Tower",
            callsign: "San Carlos Tower",
            facility_type: FacilityType::Tower,
            frequency_khz: 119200,
            airport_ident: Some("KSQL"),
            position_microdeg: (37_511_900, -122_249_400),
            active_runways: vec![Runway { designator: "30", heading: 300 }],
        },
    ];
    proof {
        reveal(is_bay_area_table);
    }
    r
}

/// Index of the first facility named `target`, or `default`.
fn find_name(facilities: &Vec<AtcFacility>, target: &str, default: usize) -> (r: usize)
    ensures
        (exists|i: int| 0 <= i < facilities@.len() && facilities@[i].name@ == target@) ==> {
            &&& r < facilities@.len()
            &&& facilities@[r as int].name@ == target@
            &&& forall|j: int| 0 <= j < r ==> facilities@[j].name@ != target@
        },
        !(exists|i: int| 0 <= i < facilities@.len() && facilities@[i].name@ == target@) ==> r == default,
{
    let mut i: usize = 0;
    while i < facilities.len()
        invariant
            i <= facilities.len(),
            forall|j: int| 0 <= j < i ==> facilities@[j].name@ != target@,
        decreases facilities.len() - i,
    {
        if str_eq(facilities[i].name, target) {
            return i;
        }
        i = i + 1;
    }
    default
}

/// Find the NorCal Approach facility index (0 if absent).
pub fn norcal_index(facilities: &Vec<AtcFacility>) -> (r: usize)
    ensures
        (exists|i: int| 0 <= i < facilities@.len() && facilities@[i].name@ == "NorCal Approach"@) ==> {
            &&& r < facilities@.len()
            &&& facilities@[r as int].name@ == "NorCal Approach"@
            &&& forall|j: int| 0 <= j < r ==> facilities@[j].name@ != "NorCal Approach"@
        },
        !(exists|i: int| 0 <= i < facilities@.len() && facilities@[i].name@ == "NorCal Approach"@) ==> r == 0,
{
    find_name(facilities, "NorCal Approach", 0)
}

/// Find the SFO Tower facility index (1 if absent).
pub fn sfo_index(facilities: &Vec<AtcFacility>) -> (r: usize)
    ensures
        (exists|i: int| 0 <= i < facilities@.len() && facilities@[i].name@ == "SFO Tower"@) ==> {
            &&& r < facilities@.len()
            &&& facilities@[r as int].name@ == "SFO Tower"@
            &&& forall|j: int| 0 <= j < r ==> facilities@[j].name@ != "SFO Tower"@
        },
        !(exists|i: int| 0 <= i < facilities@.len() && facilities@[i].name@ == "SFO Tower"@) ==> r == 1,
{
    find_name(facilities, "SFO Tower", 1)
}

/// Two frequencies (kHz) are the same channel when less than 10 kHz apart.
pub open spec fn same_channel(a: int, b: int) -> bool {
    -10 < a - b < 10
}

/// Find the first facility tuned to `freq_khz`.
pub fn facility_by_freq(facilities: &Vec<AtcFacility>, freq_khz: u32) -> (r: Option<usize>)
    ensures
        match r {
            Some(i) => i < facilities@.len() && same_channel(facilities@[i as int].frequency_khz as int, freq_khz as int)
                && forall|j: int|
                0 <= j < i ==> !same_channel(#[trigger] facilities@[j].frequency_khz as int, freq_khz as int),
            None => forall|j: int|
                0 <= j < facilities@.len() ==> !same_channel(#[trigger] facilities@[j].frequency_khz as int, freq_khz as int),
        },
{
    let mut i: usize = 0;
    while i < facilities.len()
        invariant
            i <= facilities@.len(),
            forall|j: int| 0 <= j < i ==> !same_channel(#[trigger] facilities@[j].frequency_khz as int, freq_khz as int),
        decreases facilities@.len() - i,
    {
        let f = facilities[i].frequency_khz;
        let close = if f >= freq_khz { f - freq_khz < 10 } else { freq_khz - f < 10 };
        if close {
            return Some(i);
        }
        i = i + 1;
    }
    None
}

} // verus!
