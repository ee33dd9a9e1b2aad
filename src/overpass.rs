//! Elements of the map feed, and the query that asks the feed for them.
use vstd::prelude::*;
use vstd::string::StringExecFns;
use vstd::utf8::encode_utf8;

use crate::business::{normalized, BusinessInsert, InsertView};
use crate::category::{is_car_related, BusinessCategory};
use crate::tags::Tags;

verus! {

/// One element of the feed: its kind (node, way, relation), its id, its
/// position in units of 1e-7 degree when known, and its tags.
#[derive(Debug)]
pub struct OverpassElement {
    pub element_type: String,
    pub id: i64,
    pub lat_e7: Option<i32>,
    pub lon_e7: Option<i32>,
    pub tags: Option<Tags>,
}

/// The content of an element that reconciliation reads; absent tags are
/// no tags.
pub struct ElementView {
    pub id: i64,
    pub lat_e7: Option<i32>,
    pub lon_e7: Option<i32>,
    pub tags: Map<Seq<char>, Seq<char>>,
}

impl View for OverpassElement {
    type V = ElementView;

    open spec fn view(&self) -> ElementView {
        ElementView {
            id: self.id,
            lat_e7: self.lat_e7,
            lon_e7: self.lon_e7,
            tags: match self.tags {
                Some(t) => t@,
                None => Map::empty(),
            },
        }
    }
}

/// The record an element yields: none without a position or when its tags
/// are not car-related.
pub open spec fn candidate_of(e: ElementView) -> Option<InsertView> {
    match (e.lat_e7, e.lon_e7) {
        (Some(lat), Some(lon)) => if is_car_related(e.tags) {
            Some(normalized(e.id, lat, lon, e.tags))
        } else {
            None
        },
        _ => None,
    }
}

impl OverpassElement {
    /// The candidate record of this element, if it has a position and is car-related.
    pub fn to_candidate(&self) -> (r: Option<BusinessInsert>)
        ensures
            match r {
                Some(b) => candidate_of(self@) == Some(b@),
                None => candidate_of(self@) is None,
            },
    {
        let (lat, lon) = match (self.lat_e7, self.lon_e7) {
            (Some(lat), Some(lon)) => (lat, lon),
            _ => return None,
        };
        let empty = Tags::new();
        let tags = match &self.tags {
            Some(t) => t,
            None => &empty,
        };
        if !BusinessCategory::is_car_related_osm_element(tags) {
            return None;
        }
        Some(BusinessInsert::from_osm_element(self.id, lat, lon, tags))
    }
}

/// A byte left as it is by percent-encoding.
pub open spec fn is_unreserved(b: u8) -> bool {
    ||| 48 <= b <= 57
    ||| 65 <= b <= 90
    ||| 97 <= b <= 122
    ||| b == 45 || b == 46 || b == 95 || b == 126
}

/// An uppercase hexadecimal digit.
pub open spec fn hex_digit(d: u8) -> char {
    if d < 10 {
        (48 + d) as char
    } else {
        (55 + d) as char
    }
}

/// Percent-encoding of bytes: unreserved bytes as themselves, every other
/// byte as `%` and two uppercase hexadecimal digits.
pub open spec fn percent_encoded(bytes: Seq<u8>) -> Seq<char>
    decreases bytes.len(),
{
    if bytes.len() == 0 {
        Seq::empty()
    } else {
        let b = bytes.last();
        percent_encoded(bytes.drop_last()) + if is_unreserved(b) {
            seq![b as char]
        } else {
            seq!['%', hex_digit(b / 16), hex_digit(b % 16)]
        }
    }
}

/// Relies on `urlencoding::encode`: every byte of the UTF-8 text except
/// alphanumerics and `-`, `_`, `.`, `~` becomes `%` and two uppercase
/// hexadecimal digits.
#[verifier::external_body]
fn url_encode(s: &str) -> (r: String)
    ensures
        r@ == percent_encoded(encode_utf8(s@)),
{
    urlencoding::encode(s).into_owned()
}

/// What the query for car-related businesses says before the country code.
pub const CAR_QUERY_HEAD: &'static str = "[out:json][timeout:50];\narea[\"ISO3166-1\"=\"";

/// What the query for car-related businesses says after the country code.
pub const CAR_QUERY_TAIL: &'static str = "\"][admin_level=2]->.searchArea;

// Nodes for car-related amenities
(
  node[\"amenity\"=\"car_wash\"](area.searchArea);
  node[\"amenity\"=\"fuel\"](area.searchArea);
  node[\"amenity\"=\"charging_station\"](area.searchArea);
  node[\"amenity\"=\"car_rental\"](area.searchArea);
  node[\"amenity\"=\"parking\"](area.searchArea);
  node[\"shop\"=\"car_repair\"](area.searchArea);
  node[\"shop\"=\"car\"](area.searchArea);
  node[\"shop\"=\"car_parts\"](area.searchArea);
  node[\"shop\"=\"tyres\"](area.searchArea);
  node[\"craft\"=\"car_repair\"](area.searchArea);
  node[\"service\"=\"vehicle_inspection\"](area.searchArea);
);
out body;
>;
out skel qt;";

/// Seconds the feed may spend on the query for car-related businesses.
pub const CAR_QUERY_TIMEOUT: u64 = 50;

/// A query for the feed and the seconds it may run.
#[derive(Clone, Debug)]
pub struct OverpassQuery {
    pub query: String,
    pub timeout: u64,
}

impl OverpassQuery {
    /// The query for every car-related node of the country with the given
    /// ISO 3166-1 code.
    pub fn car_related_businesses(country_code: &str) -> (r: OverpassQuery)
        ensures
            r.query@ == CAR_QUERY_HEAD@ + country_code@ + CAR_QUERY_TAIL@,
            r.timeout == CAR_QUERY_TIMEOUT,
    {
        let mut query = String::from_str(CAR_QUERY_HEAD);
        query.append(country_code);
        query.append(CAR_QUERY_TAIL);
        OverpassQuery { query, timeout: CAR_QUERY_TIMEOUT }
    }

    /// A query with the given text and timeout.
    pub fn custom(query: String, timeout: u64) -> (r: OverpassQuery)
        ensures
            r.query == query,
            r.timeout == timeout,
    {
        OverpassQuery { query, timeout }
    }

    /// The form body that carries the query: `data=` and the query,
    /// percent-encoded.
    pub fn form_body(&self) -> (r: String)
        ensures
            r@ == "data="@ + percent_encoded(encode_utf8(self.query@)),
    {
        let mut body = String::from_str("data=");
        body.append(url_encode(self.query.as_str()).as_str());
        body
    }
}

} // verus!
