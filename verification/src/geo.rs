//! Country-level places of source addresses: the centroids of countries and
//! continents, in ten-thousandths of a degree, the names of common countries,
//! and the places known for large sending platforms.
use vstd::prelude::*;

use crate::order::{as_ints, stable_desc_order, stable_order_desc};
use crate::text::{
    contains, lowercase, seq_contains, seq_starts_with, starts_with, string_of, to_chars,
    to_lowercase, to_uppercase, uppercase,
};

verus! {

/// The centroid of a country by its upper-case ISO code, as latitude and
/// longitude in ten-thousandths of a degree.
pub open spec fn country_centroid_e4(code: Seq<char>) -> Option<(int, int)> {
    if code.len() != 2 {
        None
    } else {
        match (code[0], code[1]) {
            ('A', 'D') => Some((425063, 15218)),
            ('A', 'E') => Some((234241, 538478)),
            ('A', 'F') => Some((339391, 677100)),
            ('A', 'G') => Some((170608, -617964)),
            ('A', 'L') => Some((411533, 201683)),
            ('A', 'M') => Some((400691, 450382)),
            ('A', 'O') => Some((-112027, 178739)),
            ('A', 'R') => Some((-384161, -636167)),
            ('A', 'T') => Some((475162, 145501)),
            ('A', 'U') => Some((-252744, 1337751)),
            ('A', 'Z') => Some((401431, 475769)),
            ('B', 'A') => Some((439159, 176791)),
            ('B', 'D') => Some((236850, 903563)),
            ('B', 'E') => Some((505039, 44699)),
            ('B', 'F') => Some((122383, -15616)),
            ('B', 'G') => Some((427339, 254858)),
            ('B', 'H') => Some((259304, 506378)),
            ('B', 'I') => Some((-33731, 299189)),
            ('B', 'J') => Some((93077, 23158)),
            ('B', 'N') => Some((45353, 1147277)),
            ('B', 'O') => Some((-162902, -635887)),
            ('B', 'R') => Some((-142350, -519253)),
            ('B', 'S') => Some((250343, -773963)),
            ('B', 'T') => Some((275142, 904336)),
            ('B', 'W') => Some((-223285, 246849)),
            ('B', 'Y') => Some((537098, 279534)),
            ('B', 'Z') => Some((171899, -884976)),
            ('C', 'A') => Some((561304, -1063468)),
            ('C', 'D') => Some((-40383, 217587)),
            ('C', 'F') => Some((66111, 209394)),
            ('C', 'G') => Some((-2280, 158277)),
            ('C', 'H') => Some((468182, 82275)),
            ('C', 'I') => Some((75400, -55471)),
            ('C', 'L') => Some((-356751, -715430)),
            ('C', 'M') => Some((73697, 123547)),
            ('C', 'N') => Some((358617, 1041954)),
            ('C', 'O') => Some((45709, -742973)),
            ('C', 'R') => Some((97489, -837534)),
            ('C', 'U') => Some((215218, -777812)),
            ('C', 'Y') => Some((351264, 334299)),
            ('C', 'Z') => Some((498175, 154730)),
            ('D', 'E') => Some((511657, 104515)),
            ('D', 'K') => Some((562639, 95018)),
            ('D', 'O') => Some((187357, -701627)),
            ('D', 'Z') => Some((280339, 16596)),
            ('E', 'C') => Some((-18312, -781834)),
            ('E', 'E') => Some((585953, 250136)),
            ('E', 'G') => Some((268206, 308025)),
            ('E', 'S') => Some((404637, -37492)),
            ('E', 'T') => Some((91450, 404897)),
            ('F', 'I') => Some((619241, 257482)),
            ('F', 'J') => Some((-165782, 1794144)),
            ('F', 'R') => Some((462276, 22137)),
            ('G', 'B') => Some((553781, -34360)),
            ('G', 'E') => Some((423154, 433569)),
            ('G', 'H') => Some((79465, -10232)),
            ('G', 'R') => Some((390742, 218243)),
            ('G', 'T') => Some((157835, -902308)),
            ('H', 'K') => Some((223193, 1141694)),
            ('H', 'N') => Some((152000, -862419)),
            ('H', 'R') => Some((451000, 152000)),
            ('H', 'T') => Some((189712, -722852)),
            ('H', 'U') => Some((471625, 195033)),
            ('I', 'D') => Some((-7893, 1139213)),
            ('I', 'E') => Some((534129, -82439)),
            ('I', 'L') => Some((310461, 348516)),
            ('I', 'N') => Some((205937, 789629)),
            ('I', 'Q') => Some((332232, 436793)),
            ('I', 'R') => Some((324279, 536880)),
            ('I', 'S') => Some((649631, -190208)),
            ('I', 'T') => Some((418719, 125674)),
            ('J', 'M') => Some((181096, -772975)),
            ('J', 'O') => Some((305852, 362384)),
            ('J', 'P') => Some((362048, 1382529)),
            ('K', 'E') => Some((-236, 379062)),
            ('K', 'G') => Some((412044, 747661)),
            ('K', 'H') => Some((125657, 1049910)),
            ('K', 'R') => Some((359078, 1277669)),
            ('K', 'W') => Some((293117, 474818)),
            ('K', 'Z') => Some((480196, 669237)),
            ('L', 'A') => Some((198563, 1024955)),
            ('L', 'B') => Some((338547, 358623)),
            ('L', 'K') => Some((78731, 807718)),
            ('L', 'T') => Some((551694, 238813)),
            ('L', 'U') => Some((498153, 61296)),
            ('L', 'V') => Some((568796, 246032)),
            ('L', 'Y') => Some((263351, 172283)),
            ('M', 'A') => Some((317917, -70926)),
            ('M', 'D') => Some((474116, 283699)),
            ('M', 'G') => Some((-187669, 468691)),
            ('M', 'K') => Some((416086, 217453)),
            ('M', 'L') => Some((175707, -39962)),
            ('M', 'M') => Some((219162, 959560)),
            ('M', 'N') => Some((468625, 1038467)),
            ('M', 'O') => Some((221987, 1135439)),
            ('M', 'T') => Some((359375, 143754)),
            ('M', 'U') => Some((-203484, 575522)),
            ('M', 'X') => Some((236345, -1025528)),
            ('M', 'Y') => Some((42105, 1019758)),
            ('M', 'Z') => Some((-186657, 355296)),
            ('N', 'A') => Some((-229576, 184904)),
            ('N', 'G') => Some((90820, 86753)),
            ('N', 'I') => Some((128654, -852072)),
            ('N', 'L') => Some((521326, 52913)),
            ('N', 'O') => Some((604720, 84689)),
            ('N', 'P') => Some((283949, 841240)),
            ('N', 'Z') => Some((-409006, 1748860)),
            ('O', 'M') => Some((215126, 559233)),
            ('P', 'A') => Some((85380, -807821)),
            ('P', 'E') => Some((-91900, -750152)),
            ('P', 'H') => Some((128797, 1217740)),
            ('P', 'K') => Some((303753, 693451)),
            ('P', 'L') => Some((519194, 191451)),
            ('P', 'R') => Some((182208, -665901)),
            ('P', 'T') => Some((393999, -82245)),
            ('P', 'Y') => Some((-234425, -584438)),
            ('Q', 'A') => Some((253548, 511839)),
            ('R', 'O') => Some((459432, 249668)),
            ('R', 'S') => Some((440165, 210059)),
            ('R', 'U') => Some((615240, 1053188)),
            ('S', 'A') => Some((238859, 450792)),
            ('S', 'D') => Some((128628, 302176)),
            ('S', 'E') => Some((601282, 186435)),
            ('S', 'G') => Some((13521, 1038198)),
            ('S', 'I') => Some((461512, 149955)),
            ('S', 'K') => Some((486690, 196990)),
            ('S', 'N') => Some((144974, -144524)),
            ('S', 'O') => Some((51521, 461996)),
            ('S', 'V') => Some((137942, -888965)),
            ('S', 'Y') => Some((348021, 389968)),
            ('T', 'H') => Some((158700, 1009925)),
            ('T', 'N') => Some((338869, 95375)),
            ('T', 'R') => Some((389637, 352433)),
            ('T', 'W') => Some((236978, 1209605)),
            ('T', 'Z') => Some((-63690, 348888)),
            ('U', 'A') => Some((483794, 311656)),
            ('U', 'G') => Some((13733, 322903)),
            ('U', 'S') => Some((370902, -957129)),
            ('U', 'Y') => Some((-325228, -557658)),
            ('U', 'Z') => Some((413775, 645853)),
            ('V', 'E') => Some((64238, -665897)),
            ('V', 'N') => Some((140583, 1082772)),
            ('Z', 'A') => Some((-305595, 229375)),
            ('Z', 'M') => Some((-131339, 278493)),
            ('Z', 'W') => Some((-190154, 291549)),
            _ => None,
        }
    }
}

/// The centroid of a continent by its two-letter code, in ten-thousandths of a degree.
pub open spec fn continent_centroid_e4(code: Seq<char>) -> Option<(int, int)> {
    if code.len() != 2 {
        None
    } else {
        match (code[0], code[1]) {
            ('A', 'F') => Some((16508, 176791)),
            ('A', 'N') => Some((-828628, 1350000)),
            ('A', 'S') => Some((340479, 1006197)),
            ('E', 'U') => Some((545260, 152551)),
            ('N', 'A') => Some((545260, -1052551)),
            ('O', 'C') => Some((-227359, 1400188)),
            ('S', 'A') => Some((-87832, -554915)),
            _ => None,
        }
    }
}

/// The English name of a common country by its ISO code.
pub open spec fn common_country_name(code: Seq<char>) -> Option<Seq<char>> {
    if code.len() != 2 {
        None
    } else {
        match (code[0], code[1]) {
            ('F', 'R') => Some("France"@),
            ('I', 'E') => Some("Ireland"@),
            ('U', 'S') => Some("United States"@),
            ('G', 'B') => Some("United Kingdom"@),
            ('D', 'E') => Some("Germany"@),
            ('E', 'S') => Some("Spain"@),
            ('I', 'T') => Some("Italy"@),
            ('N', 'L') => Some("Netherlands"@),
            ('B', 'E') => Some("Belgium"@),
            ('C', 'H') => Some("Switzerland"@),
            ('C', 'A') => Some("Canada"@),
            ('A', 'U') => Some("Australia"@),
            ('J', 'P') => Some("Japan"@),
            ('C', 'N') => Some("China"@),
            ('I', 'N') => Some("India"@),
            ('B', 'R') => Some("Brazil"@),
            ('M', 'X') => Some("Mexico"@),
            ('S', 'G') => Some("Singapore"@),
            ('Z', 'A') => Some("South Africa"@),
            _ => None,
        }
    }
}

/// The two characters of a two-character code.
fn code_chars(code: &str) -> (r: Option<(char, char)>)
    ensures
        match r {
            Some((a, b)) => code@.len() == 2 && code@[0] == a && code@[1] == b,
            None => code@.len() != 2,
        },
{
    let v = to_chars(code);
    if v.len() != 2 {
        None
    } else {
        Some((v[0], v[1]))
    }
}

/// The centroid of a country; see `country_centroid_e4`.
#[verifier::rlimit(60)]
pub fn country_centroid(code: &str) -> (r: Option<(i32, i32)>)
    ensures
        match r {
            Some((lat, lon)) => country_centroid_e4(code@) == Some((lat as int, lon as int)),
            None => country_centroid_e4(code@) is None,
        },
{
    let (a, b) = match code_chars(code) {
        Some(p) => p,
        None => {
            return None;
        },
    };
    match (a, b) {
        ('A', 'D') => Some((425063i32, 15218i32)),
        ('A', 'E') => Some((234241i32, 538478i32)),
        ('A', 'F') => Some((339391i32, 677100i32)),
        ('A', 'G') => Some((170608i32, -617964i32)),
        ('A', 'L') => Some((411533i32, 201683i32)),
        ('A', 'M') => Some((400691i32, 450382i32)),
        ('A', 'O') => Some((-112027i32, 178739i32)),
        ('A', 'R') => Some((-384161i32, -636167i32)),
        ('A', 'T') => Some((475162i32, 145501i32)),
        ('A', 'U') => Some((-252744i32, 1337751i32)),
        ('A', 'Z') => Some((401431i32, 475769i32)),
        ('B', 'A') => Some((439159i32, 176791i32)),
        ('B', 'D') => Some((236850i32, 903563i32)),
        ('B', 'E') => Some((505039i32, 44699i32)),
        ('B', 'F') => Some((122383i32, -15616i32)),
        ('B', 'G') => Some((427339i32, 254858i32)),
        ('B', 'H') => Some((259304i32, 506378i32)),
        ('B', 'I') => Some((-33731i32, 299189i32)),
        ('B', 'J') => Some((93077i32, 23158i32)),
        ('B', 'N') => Some((45353i32, 1147277i32)),
        ('B', 'O') => Some((-162902i32, -635887i32)),
        ('B', 'R') => Some((-142350i32, -519253i32)),
        ('B', 'S') => Some((250343i32, -773963i32)),
        ('B', 'T') => Some((275142i32, 904336i32)),
        ('B', 'W') => Some((-223285i32, 246849i32)),
        ('B', 'Y') => Some((537098i32, 279534i32)),
        ('B', 'Z') => Some((171899i32, -884976i32)),
        ('C', 'A') => Some((561304i32, -1063468i32)),
        ('C', 'D') => Some((-40383i32, 217587i32)),
        ('C', 'F') => Some((66111i32, 209394i32)),
        ('C', 'G') => Some((-2280i32, 158277i32)),
        ('C', 'H') => Some((468182i32, 82275i32)),
        ('C', 'I') => Some((75400i32, -55471i32)),
        ('C', 'L') => Some((-356751i32, -715430i32)),
        ('C', 'M') => Some((73697i32, 123547i32)),
        ('C', 'N') => Some((358617i32, 1041954i32)),
        ('C', 'O') => Some((45709i32, -742973i32)),
        ('C', 'R') => Some((97489i32, -837534i32)),
        ('C', 'U') => Some((215218i32, -777812i32)),
        ('C', 'Y') => Some((351264i32, 334299i32)),
        ('C', 'Z') => Some((498175i32, 154730i32)),
        ('D', 'E') => Some((511657i32, 104515i32)),
        ('D', 'K') => Some((562639i32, 95018i32)),
        ('D', 'O') => Some((187357i32, -701627i32)),
        ('D', 'Z') => Some((280339i32, 16596i32)),
        ('E', 'C') => Some((-18312i32, -781834i32)),
        ('E', 'E') => Some((585953i32, 250136i32)),
        ('E', 'G') => Some((268206i32, 308025i32)),
        ('E', 'S') => Some((404637i32, -37492i32)),
        ('E', 'T') => Some((91450i32, 404897i32)),
        ('F', 'I') => Some((619241i32, 257482i32)),
        ('F', 'J') => Some((-165782i32, 1794144i32)),
        ('F', 'R') => Some((462276i32, 22137i32)),
        ('G', 'B') => Some((553781i32, -34360i32)),
        ('G', 'E') => Some((423154i32, 433569i32)),
        ('G', 'H') => Some((79465i32, -10232i32)),
        ('G', 'R') => Some((390742i32, 218243i32)),
        ('G', 'T') => Some((157835i32, -902308i32)),
        ('H', 'K') => Some((223193i32, 1141694i32)),
        ('H', 'N') => Some((152000i32, -862419i32)),
        ('H', 'R') => Some((451000i32, 152000i32)),
        ('H', 'T') => Some((189712i32, -722852i32)),
        ('H', 'U') => Some((471625i32, 195033i32)),
        ('I', 'D') => Some((-7893i32, 1139213i32)),
        ('I', 'E') => Some((534129i32, -82439i32)),
        ('I', 'L') => Some((310461i32, 348516i32)),
        ('I', 'N') => Some((205937i32, 789629i32)),
        ('I', 'Q') => Some((332232i32, 436793i32)),
        ('I', 'R') => Some((324279i32, 536880i32)),
        ('I', 'S') => Some((649631i32, -190208i32)),
        ('I', 'T') => Some((418719i32, 125674i32)),
        ('J', 'M') => Some((181096i32, -772975i32)),
        ('J', 'O') => Some((305852i32, 362384i32)),
        ('J', 'P') => Some((362048i32, 1382529i32)),
        ('K', 'E') => Some((-236i32, 379062i32)),
        ('K', 'G') => Some((412044i32, 747661i32)),
        ('K', 'H') => Some((125657i32, 1049910i32)),
        ('K', 'R') => Some((359078i32, 1277669i32)),
        ('K', 'W') => Some((293117i32, 474818i32)),
        ('K', 'Z') => Some((480196i32, 669237i32)),
        ('L', 'A') => Some((198563i32, 1024955i32)),
        ('L', 'B') => Some((338547i32, 358623i32)),
        ('L', 'K') => Some((78731i32, 807718i32)),
        ('L', 'T') => Some((551694i32, 238813i32)),
        ('L', 'U') => Some((498153i32, 61296i32)),
        ('L', 'V') => Some((568796i32, 246032i32)),
        ('L', 'Y') => Some((263351i32, 172283i32)),
        ('M', 'A') => Some((317917i32, -70926i32)),
        ('M', 'D') => Some((474116i32, 283699i32)),
        ('M', 'G') => Some((-187669i32, 468691i32)),
        ('M', 'K') => Some((416086i32, 217453i32)),
        ('M', 'L') => Some((175707i32, -39962i32)),
        ('M', 'M') => Some((219162i32, 959560i32)),
        ('M', 'N') => Some((468625i32, 1038467i32)),
        ('M', 'O') => Some((221987i32, 1135439i32)),
        ('M', 'T') => Some((359375i32, 143754i32)),
        ('M', 'U') => Some((-203484i32, 575522i32)),
        ('M', 'X') => Some((236345i32, -1025528i32)),
        ('M', 'Y') => Some((42105i32, 1019758i32)),
        ('M', 'Z') => Some((-186657i32, 355296i32)),
        ('N', 'A') => Some((-229576i32, 184904i32)),
        ('N', 'G') => Some((90820i32, 86753i32)),
        ('N', 'I') => Some((128654i32, -852072i32)),
        ('N', 'L') => Some((521326i32, 52913i32)),
        ('N', 'O') => Some((604720i32, 84689i32)),
        ('N', 'P') => Some((283949i32, 841240i32)),
        ('N', 'Z') => Some((-409006i32, 1748860i32)),
        ('O', 'M') => Some((215126i32, 559233i32)),
        ('P', 'A') => Some((85380i32, -807821i32)),
        ('P', 'E') => Some((-91900i32, -750152i32)),
        ('P', 'H') => Some((128797i32, 1217740i32)),
        ('P', 'K') => Some((303753i32, 693451i32)),
        ('P', 'L') => Some((519194i32, 191451i32)),
        ('P', 'R') => Some((182208i32, -665901i32)),
        ('P', 'T') => Some((393999i32, -82245i32)),
        ('P', 'Y') => Some((-234425i32, -584438i32)),
        ('Q', 'A') => Some((253548i32, 511839i32)),
        ('R', 'O') => Some((459432i32, 249668i32)),
        ('R', 'S') => Some((440165i32, 210059i32)),
        ('R', 'U') => Some((615240i32, 1053188i32)),
        ('S', 'A') => Some((238859i32, 450792i32)),
        ('S', 'D') => Some((128628i32, 302176i32)),
        ('S', 'E') => Some((601282i32, 186435i32)),
        ('S', 'G') => Some((13521i32, 1038198i32)),
        ('S', 'I') => Some((461512i32, 149955i32)),
        ('S', 'K') => Some((486690i32, 196990i32)),
        ('S', 'N') => Some((144974i32, -144524i32)),
        ('S', 'O') => Some((51521i32, 461996i32)),
        ('S', 'V') => Some((137942i32, -888965i32)),
        ('S', 'Y') => Some((348021i32, 389968i32)),
        ('T', 'H') => Some((158700i32, 1009925i32)),
        ('T', 'N') => Some((338869i32, 95375i32)),
        ('T', 'R') => Some((389637i32, 352433i32)),
        ('T', 'W') => Some((236978i32, 1209605i32)),
        ('T', 'Z') => Some((-63690i32, 348888i32)),
        ('U', 'A') => Some((483794i32, 311656i32)),
        ('U', 'G') => Some((13733i32, 322903i32)),
        ('U', 'S') => Some((370902i32, -957129i32)),
        ('U', 'Y') => Some((-325228i32, -557658i32)),
        ('U', 'Z') => Some((413775i32, 645853i32)),
        ('V', 'E') => Some((64238i32, -665897i32)),
        ('V', 'N') => Some((140583i32, 1082772i32)),
        ('Z', 'A') => Some((-305595i32, 229375i32)),
        ('Z', 'M') => Some((-131339i32, 278493i32)),
        ('Z', 'W') => Some((-190154i32, 291549i32)),
        _ => None,
    }
}

/// The centroid of a continent; see `continent_centroid_e4`.
pub fn continent_centroid(code: &str) -> (r: Option<(i32, i32)>)
    ensures
        match r {
            Some((lat, lon)) => continent_centroid_e4(code@) == Some((lat as int, lon as int)),
            None => continent_centroid_e4(code@) is None,
        },
{
    let (a, b) = match code_chars(code) {
        Some(p) => p,
        None => {
            return None;
        },
    };
    match (a, b) {
        ('A', 'F') => Some((16508i32, 176791i32)),
        ('A', 'N') => Some((-828628i32, 1350000i32)),
        ('A', 'S') => Some((340479i32, 1006197i32)),
        ('E', 'U') => Some((545260i32, 152551i32)),
        ('N', 'A') => Some((545260i32, -1052551i32)),
        ('O', 'C') => Some((-227359i32, 1400188i32)),
        ('S', 'A') => Some((-87832i32, -554915i32)),
        _ => None,
    }
}

/// The name shown for a country code: the English name of a common country,
/// else the code itself.
pub fn country_name_from_code(code: &str) -> (r: String)
    ensures
        r@ == match common_country_name(code@) {
            Some(n) => n,
            None => code@,
        },
{
    let name: Option<&str> = match code_chars(code) {
        Some((a, b)) => match (a, b) {
        ('F', 'R') => Some("France"),
        ('I', 'E') => Some("Ireland"),
        ('U', 'S') => Some("United States"),
        ('G', 'B') => Some("United Kingdom"),
        ('D', 'E') => Some("Germany"),
        ('E', 'S') => Some("Spain"),
        ('I', 'T') => Some("Italy"),
        ('N', 'L') => Some("Netherlands"),
        ('B', 'E') => Some("Belgium"),
        ('C', 'H') => Some("Switzerland"),
        ('C', 'A') => Some("Canada"),
        ('A', 'U') => Some("Australia"),
        ('J', 'P') => Some("Japan"),
        ('C', 'N') => Some("China"),
        ('I', 'N') => Some("India"),
        ('B', 'R') => Some("Brazil"),
        ('M', 'X') => Some("Mexico"),
        ('S', 'G') => Some("Singapore"),
        ('Z', 'A') => Some("South Africa"),
            _ => None,
        },
        None => None,
    };
    match name {
        Some(n) => string_of(n),
        None => string_of(code),
    }
}

/// A place of a source address at country level. Latitude and longitude are
/// in ten-thousandths of a degree.
pub struct GeoLocation {
    pub provider: String,
    pub country: String,
    pub country_code: Option<String>,
    pub region: String,
    pub continent: Option<String>,
    pub continent_code: Option<String>,
    pub asn_number: Option<u64>,
    pub asn_organization: Option<String>,
    pub latitude_e4: i32,
    pub longitude_e4: i32,
}

/// A place known without a database.
pub fn fallback_location(
    country: &str,
    country_code: &str,
    region: &str,
    latitude_e4: i32,
    longitude_e4: i32,
) -> (r: GeoLocation)
    ensures
        r.provider@ == "local fallback"@,
        r.country@ == country@,
        r.country_code matches Some(c) && c@ == country_code@,
        r.region@ == region@,
        r.continent is None,
        r.continent_code is None,
        r.asn_number is None,
        r.asn_organization is None,
        r.latitude_e4 == latitude_e4,
        r.longitude_e4 == longitude_e4,
{
    GeoLocation {
        provider: string_of("local fallback"),
        country: string_of(country),
        country_code: Some(string_of(country_code)),
        region: string_of(region),
        continent: None,
        continent_code: None,
        asn_number: None,
        asn_organization: None,
        latitude_e4,
        longitude_e4,
    }
}

/// Which known platform a source belongs to, by its address prefix or the
/// lower-cased sender name: 1 SendGrid (Denver), 2 Mailjet (Paris),
/// 3 Microsoft 365 (Dublin), 4 Atlanta, 5 Google (Mountain View), 0 none.
pub open spec fn platform_of(ip: Seq<char>, sender: Seq<char>) -> int {
    let s = lowercase(sender);
    if seq_starts_with(ip, "149.72."@) || seq_starts_with(ip, "167.89."@) || seq_starts_with(ip, "168.245."@)
        || seq_starts_with(ip, "134.128."@) || seq_starts_with(ip, "159.183."@) || seq_starts_with(ip, "50.31."@)
        || seq_contains(s, "sendgrid"@) {
        1
    } else if seq_starts_with(ip, "185.189."@) || seq_starts_with(ip, "185.250."@) || seq_starts_with(ip, "87.253."@)
        || seq_contains(s, "mailjet"@) {
        2
    } else if seq_starts_with(ip, "2a01:111:"@) || seq_contains(s, "microsoft 365"@) {
        3
    } else if seq_starts_with(ip, "104.245.209."@) {
        4
    } else if seq_starts_with(ip, "209.85."@) || seq_contains(s, "google workspace"@) {
        5
    } else {
        0
    }
}

/// The place of a known platform: country, code, city and coordinates.
pub open spec fn platform_place(p: int) -> (Seq<char>, Seq<char>, Seq<char>, int, int) {
    if p == 1 {
        ("United States"@, "US"@, "Denver"@, 397392, -1049903)
    } else if p == 2 {
        ("France"@, "FR"@, "Paris"@, 488566, 23522)
    } else if p == 3 {
        ("Ireland"@, "IE"@, "Dublin"@, 533498, -62603)
    } else if p == 4 {
        ("United States"@, "US"@, "Atlanta"@, 337490, -843880)
    } else {
        ("United States"@, "US"@, "Mountain View"@, 373861, -1220839)
    }
}

/// The place of a source estimated without a database: the place of the
/// known platform it belongs to, if any.
pub fn estimate_location(source_ip: &str, sender: &str) -> (r: Option<GeoLocation>)
    ensures
        platform_of(source_ip@, sender@) == 0 <==> r is None,
        r matches Some(g) ==> {
            let place = platform_place(platform_of(source_ip@, sender@));
            &&& g.provider@ == "local fallback"@
            &&& g.country@ == place.0
            &&& g.country_code matches Some(c) && c@ == place.1
            &&& g.region@ == place.2
            &&& g.latitude_e4 == place.3
            &&& g.longitude_e4 == place.4
            &&& g.continent is None && g.continent_code is None
            &&& g.asn_number is None && g.asn_organization is None
        },
{
    let s = to_lowercase(sender);
    let sl = s.as_str();
    if starts_with(source_ip, "149.72.") || starts_with(source_ip, "167.89.") || starts_with(source_ip, "168.245.")
        || starts_with(source_ip, "134.128.") || starts_with(source_ip, "159.183.") || starts_with(source_ip, "50.31.")
        || contains(sl, "sendgrid") {
        return Some(fallback_location("United States", "US", "Denver", 397392, -1049903));
    }
    if starts_with(source_ip, "185.189.") || starts_with(source_ip, "185.250.") || starts_with(source_ip, "87.253.")
        || contains(sl, "mailjet") {
        return Some(fallback_location("France", "FR", "Paris", 488566, 23522));
    }
    if starts_with(source_ip, "2a01:111:") || contains(sl, "microsoft 365") {
        return Some(fallback_location("Ireland", "IE", "Dublin", 533498, -62603));
    }
    if starts_with(source_ip, "104.245.209.") {
        return Some(fallback_location("United States", "US", "Atlanta", 337490, -843880));
    }
    if starts_with(source_ip, "209.85.") || contains(sl, "google workspace") {
        return Some(fallback_location("United States", "US", "Mountain View", 373861, -1220839));
    }
    None
}

/// What a database lookup of an address gave, field by field; each `None`
/// where the record holds nothing of that type at that path.
pub struct GeoRecord {
    /// `country.names.en`
    pub country_name_en: Option<String>,
    /// `country.name`
    pub country_name: Option<String>,
    /// `country.iso_code`
    pub country_iso_code: Option<String>,
    /// `continent.names.en`
    pub continent_name_en: Option<String>,
    /// `continent.name`
    pub continent_name: Option<String>,
    /// `continent.code`
    pub continent_code: Option<String>,
    /// `autonomous_system_number`, read as a 64-bit number.
    pub asn_u64: Option<u64>,
    /// `autonomous_system_number`, read as a 32-bit number.
    pub asn_u32: Option<u32>,
    /// `asn.number`, read as a 64-bit number.
    pub asn_number_u64: Option<u64>,
    /// `asn.number`, read as a 32-bit number.
    pub asn_number_u32: Option<u32>,
    /// `autonomous_system_organization`
    pub asn_org: Option<String>,
    /// `asn.organization`
    pub asn_organization: Option<String>,
}

/// The first present value.
pub open spec fn first_text(a: Option<String>, b: Option<String>) -> Option<Seq<char>> {
    match a {
        Some(x) => Some(x@),
        None => match b {
            Some(y) => Some(y@),
            None => None,
        },
    }
}

/// The view of an optional owned string.
pub open spec fn text_view(v: Option<String>) -> Option<Seq<char>> {
    match v {
        Some(s) => Some(s@),
        None => None,
    }
}

/// The autonomous system number, from the first path and width that holds one.
pub open spec fn asn_of(r: GeoRecord) -> Option<u64> {
    match r.asn_u64 {
        Some(n) => Some(n),
        None => match r.asn_u32 {
            Some(n) => Some(n as u64),
            None => match r.asn_number_u64 {
                Some(n) => Some(n),
                None => match r.asn_number_u32 {
                    Some(n) => Some(n as u64),
                    None => None,
                },
            },
        },
    }
}

/// The coordinates of a record: its country's centroid, else its continent's.
pub open spec fn record_coordinates(code: Option<Seq<char>>, continent_code: Option<Seq<char>>) -> Option<(int, int)> {
    match (match code {
        Some(c) => country_centroid_e4(c),
        None => None,
    }) {
        Some(p) => Some(p),
        None => match continent_code {
            Some(c) => continent_centroid_e4(c),
            None => None,
        },
    }
}

fn first_of(a: &Option<String>, b: &Option<String>) -> (r: Option<String>)
    ensures
        text_view(r) == first_text(*a, *b),
{
    match a {
        Some(x) => Some(string_of(x.as_str())),
        None => match b {
            Some(y) => Some(string_of(y.as_str())),
            None => None,
        },
    }
}

/// `r` is the place that the database record `record` gives.
pub open spec fn location_from(record: GeoRecord, r: Option<GeoLocation>) -> bool {
    let code = match record.country_iso_code {
        Some(c) => Some(uppercase(c@)),
        None => None,
    };
    &&& (r is Some <==> record_coordinates(code, text_view(record.continent_code)) is Some)
    &&& r matches Some(g) ==> {
        &&& g.provider@ == "IP66"@
        &&& g.country@ == match first_text(record.country_name_en, record.country_name) {
            Some(n) => n,
            None => match code {
                Some(c) => match common_country_name(c) {
                    Some(n) => n,
                    None => c,
                },
                None => "Unknown"@,
            },
        }
        &&& text_view(g.country_code) == code
        &&& g.region@ == "Country-level"@
        &&& text_view(g.continent) == first_text(record.continent_name_en, record.continent_name)
        &&& text_view(g.continent_code) == text_view(record.continent_code)
        &&& g.asn_number == asn_of(record)
        &&& text_view(g.asn_organization) == first_text(record.asn_org, record.asn_organization)
        &&& record_coordinates(code, text_view(record.continent_code)) == Some((g.latitude_e4 as int, g.longitude_e4 as int))
    }
}

/// The place that a database record gives: names in English where present,
/// the upper-cased country code, the autonomous system, and the centroid of
/// the country (else of the continent); no place when neither is known.
pub fn location_from_record(record: &GeoRecord) -> (r: Option<GeoLocation>)
    ensures
        location_from(*record, r),
{
    let country_name = first_of(&record.country_name_en, &record.country_name);
    let country_code: Option<String> = match &record.country_iso_code {
        Some(c) => Some(to_uppercase(c.as_str())),
        None => None,
    };
    let continent = first_of(&record.continent_name_en, &record.continent_name);
    let continent_code: Option<String> = match &record.continent_code {
        Some(c) => Some(string_of(c.as_str())),
        None => None,
    };
    let asn_number: Option<u64> = match record.asn_u64 {
        Some(n) => Some(n),
        None => match record.asn_u32 {
            Some(n) => Some(n as u64),
            None => match record.asn_number_u64 {
                Some(n) => Some(n),
                None => match record.asn_number_u32 {
                    Some(n) => Some(n as u64),
                    None => None,
                },
            },
        },
    };
    let asn_organization = first_of(&record.asn_org, &record.asn_organization);
    let from_country = match &country_code {
        Some(c) => country_centroid(c.as_str()),
        None => None,
    };
    let coordinates = match from_country {
        Some(p) => p,
        None => match &continent_code {
            Some(c) => match continent_centroid(c.as_str()) {
                Some(p) => p,
                None => {
                    return None;
                },
            },
            None => {
                return None;
            },
        },
    };
    let country = match country_name {
        Some(n) => n,
        None => match &country_code {
            Some(c) => country_name_from_code(c.as_str()),
            None => string_of("Unknown"),
        },
    };
    Some(
        GeoLocation {
            provider: string_of("IP66"),
            country,
            country_code,
            region: string_of("Country-level"),
            continent,
            continent_code,
            asn_number,
            asn_organization,
            latitude_e4: coordinates.0,
            longitude_e4: coordinates.1,
        },
    )
}

// ---------------------------------------------------------------------------
// The IP66 database
// ---------------------------------------------------------------------------

/// Names whether `maxminddb` opens the database `db` and looks up the address
/// that `ip` reads as.
pub uninterp spec fn ip66_found(db: Seq<u8>, ip: Seq<char>) -> bool;

/// Names the text that `decode_path` finds in the record of `ip` in `db` at a
/// path of keys.
pub uninterp spec fn ip66_text(db: Seq<u8>, ip: Seq<char>, path: Seq<Seq<char>>) -> Option<Seq<char>>;

/// Names the 64-bit number that `decode_path` finds in the record of `ip` in
/// `db` at a path of keys.
pub uninterp spec fn ip66_u64(db: Seq<u8>, ip: Seq<char>, path: Seq<Seq<char>>) -> Option<u64>;

/// Names the 32-bit number that `decode_path` finds in the record of `ip` in
/// `db` at a path of keys.
pub uninterp spec fn ip66_u32(db: Seq<u8>, ip: Seq<char>, path: Seq<Seq<char>>) -> Option<u32>;

/// The keys of a path, as plain values.
pub open spec fn key_views(keys: Seq<&str>) -> Seq<Seq<char>> {
    keys.map_values(|k: &str| k@)
}

/// Calls `Reader::from_source` on the database bytes, parses `source_ip` as an
/// address and calls `Reader::lookup`; whether all three succeed.
#[verifier::external_body]
fn ip66_lookup(db: &[u8], source_ip: &str) -> (r: bool)
    ensures
        r == ip66_found(db@, source_ip@),
{
    match (maxminddb::Reader::from_source(db), source_ip.parse()) {
        (Ok(reader), Ok(ip)) => reader.lookup(ip).is_ok(),
        _ => false,
    }
}

/// Looks `source_ip` up as `ip66_lookup` does and calls `decode_path::<String>`
/// with the keys; a decoding error reads as nothing.
#[verifier::external_body]
fn ip66_decode_text(db: &[u8], source_ip: &str, keys: &[&str]) -> (r: Option<String>)
    ensures
        text_view(r) == ip66_text(db@, source_ip@, key_views(keys@)),
{
    let path: Vec<maxminddb::PathElement> = keys.iter().map(|k| maxminddb::PathElement::Key(k)).collect();
    match (maxminddb::Reader::from_source(db), source_ip.parse()) {
        (Ok(reader), Ok(ip)) => match reader.lookup(ip) {
            Ok(found) => found.decode_path::<String>(&path).ok().flatten(),
            Err(_) => None,
        },
        _ => None,
    }
}

/// Looks `source_ip` up as `ip66_lookup` does and calls `decode_path::<u64>`
/// with the keys; a decoding error reads as nothing.
#[verifier::external_body]
fn ip66_decode_u64(db: &[u8], source_ip: &str, keys: &[&str]) -> (r: Option<u64>)
    ensures
        r == ip66_u64(db@, source_ip@, key_views(keys@)),
{
    let path: Vec<maxminddb::PathElement> = keys.iter().map(|k| maxminddb::PathElement::Key(k)).collect();
    match (maxminddb::Reader::from_source(db), source_ip.parse()) {
        (Ok(reader), Ok(ip)) => match reader.lookup(ip) {
            Ok(found) => found.decode_path::<u64>(&path).ok().flatten(),
            Err(_) => None,
        },
        _ => None,
    }
}

/// Looks `source_ip` up as `ip66_lookup` does and calls `decode_path::<u32>`
/// with the keys; a decoding error reads as nothing.
#[verifier::external_body]
fn ip66_decode_u32(db: &[u8], source_ip: &str, keys: &[&str]) -> (r: Option<u32>)
    ensures
        r == ip66_u32(db@, source_ip@, key_views(keys@)),
{
    let path: Vec<maxminddb::PathElement> = keys.iter().map(|k| maxminddb::PathElement::Key(k)).collect();
    match (maxminddb::Reader::from_source(db), source_ip.parse()) {
        (Ok(reader), Ok(ip)) => match reader.lookup(ip) {
            Ok(found) => found.decode_path::<u32>(&path).ok().flatten(),
            Err(_) => None,
        },
        _ => None,
    }
}

/// `rec` holds, field by field, what the database `db` gives for `ip`.
pub open spec fn db_record(rec: GeoRecord, db: Seq<u8>, ip: Seq<char>) -> bool {
    &&& text_view(rec.country_name_en) == ip66_text(db, ip, seq!["country"@, "names"@, "en"@])
    &&& text_view(rec.country_name) == ip66_text(db, ip, seq!["country"@, "name"@])
    &&& text_view(rec.country_iso_code) == ip66_text(db, ip, seq!["country"@, "iso_code"@])
    &&& text_view(rec.continent_name_en) == ip66_text(db, ip, seq!["continent"@, "names"@, "en"@])
    &&& text_view(rec.continent_name) == ip66_text(db, ip, seq!["continent"@, "name"@])
    &&& text_view(rec.continent_code) == ip66_text(db, ip, seq!["continent"@, "code"@])
    &&& rec.asn_u64 == ip66_u64(db, ip, seq!["autonomous_system_number"@])
    &&& rec.asn_u32 == ip66_u32(db, ip, seq!["autonomous_system_number"@])
    &&& rec.asn_number_u64 == ip66_u64(db, ip, seq!["asn"@, "number"@])
    &&& rec.asn_number_u32 == ip66_u32(db, ip, seq!["asn"@, "number"@])
    &&& text_view(rec.asn_org) == ip66_text(db, ip, seq!["autonomous_system_organization"@])
    &&& text_view(rec.asn_organization) == ip66_text(db, ip, seq!["asn"@, "organization"@])
}

/// What the IP66 database `db` holds for `source_ip`, field by field, or
/// nothing when the database does not open, the address does not parse or the
/// lookup fails.
pub fn ip66_record(db: &[u8], source_ip: &str) -> (r: Option<GeoRecord>)
    ensures
        r is Some <==> ip66_found(db@, source_ip@),
        r matches Some(rec) ==> db_record(rec, db@, source_ip@),
{
    if !ip66_lookup(db, source_ip) {
        return None;
    }
    let country_names_en = ["country", "names", "en"];
    let country_name = ["country", "name"];
    let country_iso = ["country", "iso_code"];
    let continent_names_en = ["continent", "names", "en"];
    let continent_name = ["continent", "name"];
    let continent_code = ["continent", "code"];
    let asn = ["autonomous_system_number"];
    let asn_number = ["asn", "number"];
    let asn_org = ["autonomous_system_organization"];
    let asn_organization = ["asn", "organization"];
    proof {
        reveal_strlit("country");
        reveal_strlit("names");
        reveal_strlit("en");
        reveal_strlit("name");
        reveal_strlit("iso_code");
        reveal_strlit("continent");
        reveal_strlit("code");
        reveal_strlit("autonomous_system_number");
        reveal_strlit("asn");
        reveal_strlit("number");
        reveal_strlit("autonomous_system_organization");
        reveal_strlit("organization");
        assert(key_views(country_names_en@) =~= seq!["country"@, "names"@, "en"@]);
        assert(key_views(country_name@) =~= seq!["country"@, "name"@]);
        assert(key_views(country_iso@) =~= seq!["country"@, "iso_code"@]);
        assert(key_views(continent_names_en@) =~= seq!["continent"@, "names"@, "en"@]);
        assert(key_views(continent_name@) =~= seq!["continent"@, "name"@]);
        assert(key_views(continent_code@) =~= seq!["continent"@, "code"@]);
        assert(key_views(asn@) =~= seq!["autonomous_system_number"@]);
        assert(key_views(asn_number@) =~= seq!["asn"@, "number"@]);
        assert(key_views(asn_org@) =~= seq!["autonomous_system_organization"@]);
        assert(key_views(asn_organization@) =~= seq!["asn"@, "organization"@]);
    }
    Some(
        GeoRecord {
            country_name_en: ip66_decode_text(db, source_ip, &country_names_en),
            country_name: ip66_decode_text(db, source_ip, &country_name),
            country_iso_code: ip66_decode_text(db, source_ip, &country_iso),
            continent_name_en: ip66_decode_text(db, source_ip, &continent_names_en),
            continent_name: ip66_decode_text(db, source_ip, &continent_name),
            continent_code: ip66_decode_text(db, source_ip, &continent_code),
            asn_u64: ip66_decode_u64(db, source_ip, &asn),
            asn_u32: ip66_decode_u32(db, source_ip, &asn),
            asn_number_u64: ip66_decode_u64(db, source_ip, &asn_number),
            asn_number_u32: ip66_decode_u32(db, source_ip, &asn_number),
            asn_org: ip66_decode_text(db, source_ip, &asn_org),
            asn_organization: ip66_decode_text(db, source_ip, &asn_organization),
        },
    )
}

/// The place of `source_ip` in the IP66 database `db`: nothing when the
/// lookup fails, else the place that `location_from_record` gives for the
/// record that the database holds.
pub fn ip66_location(db: &[u8], source_ip: &str) -> (r: Option<GeoLocation>)
    ensures
        !ip66_found(db@, source_ip@) ==> r is None,
        ip66_found(db@, source_ip@) ==> exists|rec: GeoRecord|
            #![trigger db_record(rec, db@, source_ip@)]
            db_record(rec, db@, source_ip@) && location_from(rec, r),
{
    match ip66_record(db, source_ip) {
        Some(rec) => location_from_record(&rec),
        None => None,
    }
}

/// The place of a source: what the database gave, else the estimate for a
/// known platform.
pub fn resolve_location(looked_up: Option<GeoLocation>, source_ip: &str, sender: &str) -> (r: Option<GeoLocation>)
    ensures
        looked_up is Some ==> r == looked_up,
        looked_up is None ==> (r is None <==> platform_of(source_ip@, sender@) == 0),
        looked_up is None && r is Some ==> r->0.provider@ == "local fallback"@ && r->0.region@ == platform_place(platform_of(source_ip@, sender@)).2,
{
    match looked_up {
        Some(g) => Some(g),
        None => estimate_location(source_ip, sender),
    }
}

/// The positions of the located sources, in order.
pub open spec fn located_positions(located: Seq<bool>) -> Seq<int>
    decreases located.len(),
{
    if located.len() == 0 {
        Seq::<int>::empty()
    } else {
        let rest = located_positions(located.drop_last());
        if located.last() {
            rest.push(located.len() - 1)
        } else {
            rest
        }
    }
}

/// How many sources are not located.
pub open spec fn unlocated_count(located: Seq<bool>) -> nat
    decreases located.len(),
{
    if located.len() == 0 {
        0
    } else {
        unlocated_count(located.drop_last()) + if located.last() {
            0nat
        } else {
            1nat
        }
    }
}

/// The message counts of the given positions, as keys of an ordering.
pub open spec fn position_keys(messages: Seq<u64>, positions: Seq<int>) -> Seq<i128> {
    positions.map_values(|p: int| messages[p] as i128)
}

proof fn lemma_located_step(located: Seq<bool>, i: int)
    requires
        0 <= i < located.len(),
    ensures
        located.take(i + 1).drop_last() == located.take(i),
        located.take(i + 1).last() == located[i],
{
    assert(located.take(i + 1).drop_last() =~= located.take(i));
}

/// The map of sources: of the sources with their message counts and whether
/// each could be placed, the positions of those placed, by descending
/// messages (ties in the order they came in), and how many could not be placed.
pub fn map_plan(messages: &Vec<u64>, located: &Vec<bool>) -> (r: (Vec<usize>, usize))
    requires
        messages@.len() == located@.len(),
    ensures
        r.1 == unlocated_count(located@),
        r.0@.len() == located_positions(located@).len(),
        exists|ord: Seq<int>|
            #![trigger stable_desc_order(position_keys(messages@, located_positions(located@)), ord)]
            stable_desc_order(position_keys(messages@, located_positions(located@)), ord) && forall|j: int|
                0 <= j < r.0@.len() ==> #[trigger] r.0@[j] as int == located_positions(located@)[ord[j]],
{
    let mut positions: Vec<usize> = Vec::new();
    let mut keys: Vec<i128> = Vec::new();
    let mut unlocated: usize = 0;
    let mut i: usize = 0;
    while i < located.len()
        invariant
            i <= located@.len(),
            messages@.len() == located@.len(),
            as_ints(positions@) == located_positions(located@.take(i as int)),
            keys@ == position_keys(messages@, located_positions(located@.take(i as int))),
            unlocated == unlocated_count(located@.take(i as int)),
            unlocated <= i,
            forall|j: int| 0 <= j < positions@.len() ==> #[trigger] positions@[j] < i,
        decreases located.len() - i,
    {
        proof {
            lemma_located_step(located@, i as int);
        }
        if located[i] {
            positions.push(i);
            keys.push(messages[i] as i128);
            assert(as_ints(positions@) =~= located_positions(located@.take(i as int)).push(i as int));
            assert(keys@ =~= position_keys(messages@, located_positions(located@.take(i + 1))));
        } else {
            unlocated = unlocated + 1;
        }
        i = i + 1;
    }
    assert(located@.take(located@.len() as int) =~= located@);
    let order = stable_order_desc(&keys);
    let ghost ord = as_ints(order@);
    let mut out: Vec<usize> = Vec::new();
    let mut k: usize = 0;
    while k < order.len()
        invariant
            k <= order@.len(),
            ord == as_ints(order@),
            stable_desc_order(keys@, ord),
            keys@.len() == positions@.len(),
            as_ints(positions@) == located_positions(located@),
            out@.len() == k,
            forall|j: int| 0 <= j < k ==> #[trigger] out@[j] as int == located_positions(located@)[ord[j]],
        decreases order.len() - k,
    {
        let o = order[k];
        assert(ord[k as int] == o as int);
        assert(0 <= ord[k as int] < keys@.len());
        out.push(positions[o]);
        assert(as_ints(positions@)[o as int] == positions@[o as int] as int);
        k = k + 1;
    }
    assert(keys@ == position_keys(messages@, located_positions(located@)));
    (out, unlocated)
}

} // verus!
