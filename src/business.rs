//! Business records, the candidate records derived from map elements, and
//! the response shape that callers receive.
use vstd::prelude::*;
use vstd::string::StringExecFns;

use crate::category::{classify, is_canonical, BusinessCategory};
use crate::tags::{tag, Tags};
use crate::text::{chars_of, contains_text, find_text, lower_of, lowercase};

verus! {

/// The character sequences of a list of strings.
pub open spec fn texts(s: Seq<String>) -> Seq<Seq<char>> {
    Seq::new(s.len(), |i: int| s[i]@)
}

/// The characters of an optional string.
pub open spec fn opt_text(o: Option<String>) -> Option<Seq<char>> {
    match o {
        Some(s) => Some(s@),
        None => None,
    }
}

/// The character sequences of an optional list of strings.
pub open spec fn opt_texts(o: Option<Vec<String>>) -> Option<Seq<Seq<char>>> {
    match o {
        Some(v) => Some(texts(v@)),
        None => None,
    }
}

/// `parts` joined with `sep` between neighbours.
pub open spec fn join_with(parts: Seq<Seq<char>>, sep: Seq<char>) -> Seq<char>
    decreases parts.len(),
{
    if parts.len() == 0 {
        Seq::empty()
    } else if parts.len() == 1 {
        parts[0]
    } else {
        join_with(parts.drop_last(), sep) + sep + parts.last()
    }
}

/// The one-element list of a present value, or the empty list.
pub open spec fn present(o: Option<Seq<char>>) -> Seq<Seq<char>> {
    match o {
        Some(x) => seq![x],
        None => Seq::empty(),
    }
}

/// Street and house number joined by a space, or the street alone.
pub open spec fn street_line(tags: Map<Seq<char>, Seq<char>>) -> Option<Seq<char>> {
    match tag(tags, "addr:street"@) {
        Some(street) => match tag(tags, "addr:housenumber"@) {
            Some(number) => Some(street + " "@ + number),
            None => Some(street),
        },
        None => None,
    }
}

/// The address components present in the tags, in address order.
pub open spec fn address_parts(tags: Map<Seq<char>, Seq<char>>) -> Seq<Seq<char>> {
    present(street_line(tags)) + present(tag(tags, "addr:city"@)) + present(
        tag(tags, "addr:postcode"@),
    ) + present(tag(tags, "addr:country"@))
}

/// The postal address the tags describe; absent when no component is.
pub open spec fn address_of(tags: Map<Seq<char>, Seq<char>>) -> Option<Seq<char>> {
    if address_parts(tags).len() == 0 {
        None
    } else {
        Some(join_with(address_parts(tags), ", "@))
    }
}

/// The city the tags name, `addr:city` first.
pub open spec fn city_of(tags: Map<Seq<char>, Seq<char>>) -> Option<Seq<char>> {
    match tag(tags, "addr:city"@) {
        Some(c) => Some(c),
        None => tag(tags, "city"@),
    }
}

/// The strings of `parts` joined with `sep`.
pub fn join_text(parts: &Vec<String>, sep: &str) -> (r: String)
    ensures
        r@ == join_with(texts(parts@), sep@),
{
    let mut out = String::new();
    let mut i: usize = 0;
    while i < parts.len()
        invariant
            i <= parts@.len(),
            out@ == join_with(texts(parts@.subrange(0, i as int)), sep@),
        decreases parts@.len() - i,
    {
        if i > 0 {
            out.append(sep);
        }
        out.append(parts[i].as_str());
        i = i + 1;
        proof {
            let now = texts(parts@.subrange(0, i as int));
            assert(now.drop_last() =~= texts(parts@.subrange(0, i - 1)));
            if i == 1 {
                assert(out@ =~= now[0]);
            }
        }
    }
    assert(parts@.subrange(0, i as int) =~= parts@);
    out
}

/// A copy of an optional string.
pub fn copy_opt_text(o: &Option<String>) -> (r: Option<String>)
    ensures
        opt_text(r) == opt_text(*o),
{
    match o {
        Some(s) => Some(s.clone()),
        None => None,
    }
}

/// A copy of a list of strings.
pub fn copy_texts(v: &Vec<String>) -> (r: Vec<String>)
    ensures
        texts(r@) == texts(v@),
{
    let mut out: Vec<String> = Vec::new();
    let mut i: usize = 0;
    while i < v.len()
        invariant
            i <= v@.len(),
            out@.len() == i,
            forall|j: int| 0 <= j < i ==> (#[trigger] out@[j])@ == v@[j]@,
        decreases v@.len() - i,
    {
        out.push(v[i].clone());
        i = i + 1;
    }
    assert(texts(out@) =~= texts(v@));
    out
}

/// A copy of an optional list of strings.
pub fn copy_opt_texts(o: &Option<Vec<String>>) -> (r: Option<Vec<String>>)
    ensures
        opt_texts(r) == opt_texts(*o),
{
    match o {
        Some(v) => Some(copy_texts(v)),
        None => None,
    }
}

/// A copy of a list of categories.
pub fn copy_categories(v: &Vec<BusinessCategory>) -> (r: Vec<BusinessCategory>)
    ensures
        r@ == v@,
{
    let mut out: Vec<BusinessCategory> = Vec::new();
    let mut i: usize = 0;
    while i < v.len()
        invariant
            i <= v@.len(),
            out@ == v@.subrange(0, i as int),
        decreases v@.len() - i,
    {
        out.push(v[i]);
        i = i + 1;
        assert(out@ =~= v@.subrange(0, i as int));
    }
    assert(v@.subrange(0, i as int) =~= v@);
    out
}

/// A stored business. Coordinates are in units of 1e-7 degree; timestamps
/// are milliseconds since the Unix epoch; the average rating is in
/// hundredths of a star.
#[derive(Clone, Debug)]
pub struct Business {
    pub id: u128,
    pub osm_id: Option<i64>,
    pub name: Option<String>,
    pub name_en: Option<String>,
    pub address: Option<String>,
    pub latitude_e7: i32,
    pub longitude_e7: i32,
    pub categories: Vec<BusinessCategory>,
    pub specializations: Option<Vec<String>>,
    pub created_at: i64,
    pub updated_at: i64,
    pub logo_map_url: Option<String>,
    pub is_registered: bool,
    pub city: Option<String>,
    pub average_reviews_x100: u32,
    pub review_count: u32,
}

/// The mathematical content of a `Business`.
pub struct BusinessView {
    pub id: u128,
    pub osm_id: Option<i64>,
    pub name: Option<Seq<char>>,
    pub name_en: Option<Seq<char>>,
    pub address: Option<Seq<char>>,
    pub latitude_e7: i32,
    pub longitude_e7: i32,
    pub categories: Seq<BusinessCategory>,
    pub specializations: Option<Seq<Seq<char>>>,
    pub created_at: i64,
    pub updated_at: i64,
    pub logo_map_url: Option<Seq<char>>,
    pub is_registered: bool,
    pub city: Option<Seq<char>>,
    pub average_reviews_x100: u32,
    pub review_count: u32,
}

impl View for Business {
    type V = BusinessView;

    open spec fn view(&self) -> BusinessView {
        BusinessView {
            id: self.id,
            osm_id: self.osm_id,
            name: opt_text(self.name),
            name_en: opt_text(self.name_en),
            address: opt_text(self.address),
            latitude_e7: self.latitude_e7,
            longitude_e7: self.longitude_e7,
            categories: self.categories@,
            specializations: opt_texts(self.specializations),
            created_at: self.created_at,
            updated_at: self.updated_at,
            logo_map_url: opt_text(self.logo_map_url),
            is_registered: self.is_registered,
            city: opt_text(self.city),
            average_reviews_x100: self.average_reviews_x100,
            review_count: self.review_count,
        }
    }
}

impl BusinessView {
    /// Categories canonical and timestamps in order.
    pub open spec fn well_formed(self) -> bool {
        is_canonical(self.categories) && self.created_at <= self.updated_at
    }

    /// A search term, lowercased, occurs in the lowercased name, address or
    /// name of a category.
    pub open spec fn matches_term(self, term: Seq<char>) -> bool {
        ||| self.name matches Some(n) && contains_text(lower_of(n), lower_of(term))
        ||| self.address matches Some(a) && contains_text(lower_of(a), lower_of(term))
        ||| exists|i: int|
            0 <= i < self.categories.len() && contains_text(
                lower_of(#[trigger] self.categories[i].label()),
                lower_of(term),
            )
    }
}

/// A record derived from one map element, ready to be written.
#[derive(Clone, Debug)]
pub struct BusinessInsert {
    pub osm_id: i64,
    pub name: Option<String>,
    pub name_en: Option<String>,
    pub address: Option<String>,
    pub latitude_e7: i32,
    pub longitude_e7: i32,
    pub categories: Vec<BusinessCategory>,
    pub city: Option<String>,
}

/// The mathematical content of a `BusinessInsert`.
pub struct InsertView {
    pub osm_id: i64,
    pub name: Option<Seq<char>>,
    pub name_en: Option<Seq<char>>,
    pub address: Option<Seq<char>>,
    pub latitude_e7: i32,
    pub longitude_e7: i32,
    pub categories: Seq<BusinessCategory>,
    pub city: Option<Seq<char>>,
}

impl View for BusinessInsert {
    type V = InsertView;

    open spec fn view(&self) -> InsertView {
        InsertView {
            osm_id: self.osm_id,
            name: opt_text(self.name),
            name_en: opt_text(self.name_en),
            address: opt_text(self.address),
            latitude_e7: self.latitude_e7,
            longitude_e7: self.longitude_e7,
            categories: self.categories@,
            city: opt_text(self.city),
        }
    }
}

/// The candidate record that a map element with the given id, position and
/// tags yields.
pub open spec fn normalized(
    osm_id: i64,
    latitude_e7: i32,
    longitude_e7: i32,
    tags: Map<Seq<char>, Seq<char>>,
) -> InsertView {
    InsertView {
        osm_id,
        name: tag(tags, "name"@),
        name_en: tag(tags, "name:en"@),
        address: address_of(tags),
        latitude_e7,
        longitude_e7,
        categories: classify(tags),
        city: city_of(tags),
    }
}

/// A copy of the value of `key`, if present.
fn tag_text(tags: &Tags, key: &str) -> (r: Option<String>)
    ensures
        opt_text(r) == tag(tags@, key@),
{
    match tags.get(key) {
        Some(v) => Some(v.clone()),
        None => None,
    }
}

impl BusinessInsert {
    /// The candidate record of a map element: names from `name` and
    /// `name:en`, the assembled address, the city, and the categories that
    /// the classifier infers. Missing fields stay absent.
    pub fn from_osm_element(osm_id: i64, latitude_e7: i32, longitude_e7: i32, tags: &Tags) -> (r:
        BusinessInsert)
        ensures
            r@ == normalized(osm_id, latitude_e7, longitude_e7, tags@),
    {
        let categories = BusinessCategory::from_osm_tags(tags);
        let city = match tag_text(tags, "addr:city") {
            Some(c) => Some(c),
            None => tag_text(tags, "city"),
        };
        BusinessInsert {
            osm_id,
            name: tag_text(tags, "name"),
            name_en: tag_text(tags, "name:en"),
            address: Self::build_address(tags),
            latitude_e7,
            longitude_e7,
            categories,
            city,
        }
    }

    fn build_address(tags: &Tags) -> (r: Option<String>)
        ensures
            opt_text(r) == address_of(tags@),
    {
        let ghost t = tags@;
        let mut parts: Vec<String> = Vec::new();
        match tags.get("addr:street") {
            Some(street) => {
                let mut line = street.clone();
                match tags.get("addr:housenumber") {
                    Some(number) => {
                        line.append(" ");
                        line.append(number.as_str());
                    },
                    None => {},
                }
                parts.push(line);
            },
            None => {},
        }
        assert(texts(parts@) =~= present(street_line(t)));
        let ghost after_street = texts(parts@);
        match tag_text(tags, "addr:city") {
            Some(v) => parts.push(v),
            None => {},
        }
        assert(texts(parts@) =~= after_street + present(tag(t, "addr:city"@)));
        let ghost after_city = texts(parts@);
        match tag_text(tags, "addr:postcode") {
            Some(v) => parts.push(v),
            None => {},
        }
        assert(texts(parts@) =~= after_city + present(tag(t, "addr:postcode"@)));
        let ghost after_postcode = texts(parts@);
        match tag_text(tags, "addr:country") {
            Some(v) => parts.push(v),
            None => {},
        }
        assert(texts(parts@) =~= after_postcode + present(tag(t, "addr:country"@)));
        assert(texts(parts@) =~= address_parts(t));
        if parts.len() == 0 {
            None
        } else {
            Some(join_text(&parts, ", "))
        }
    }
}

/// Where a business is.
#[derive(Clone, Debug)]
pub struct Location {
    pub address: Option<String>,
    pub city: Option<String>,
    pub latitude_e7: i32,
    pub longitude_e7: i32,
}

/// Media of a business.
#[derive(Clone, Debug)]
pub struct Media {
    pub map_logo: Option<String>,
}

/// The rating block of a business; the average is in hundredths of a star.
#[derive(Clone, Debug)]
pub struct Rating {
    pub average_reviews_x100: u32,
    pub num_reviews: u32,
}

/// A business as callers receive it.
#[derive(Clone, Debug)]
pub struct BusinessResponse {
    pub id: u128,
    pub name: Option<String>,
    pub location: Location,
    pub categories: Vec<String>,
    pub specializations: Option<Vec<String>>,
    pub media: Media,
    pub is_registered: bool,
    pub rating: Rating,
}

/// The display names of a list of categories.
pub open spec fn labels(cats: Seq<BusinessCategory>) -> Seq<Seq<char>> {
    Seq::new(cats.len(), |i: int| cats[i].label())
}

/// The display names of `cats`, in order.
pub fn category_names(cats: &Vec<BusinessCategory>) -> (r: Vec<String>)
    ensures
        texts(r@) == labels(cats@),
{
    let mut out: Vec<String> = Vec::new();
    let mut i: usize = 0;
    while i < cats.len()
        invariant
            i <= cats@.len(),
            out@.len() == i,
            forall|j: int| 0 <= j < i ==> (#[trigger] out@[j])@ == cats@[j].label(),
        decreases cats@.len() - i,
    {
        out.push(String::from_str(cats[i].display_name()));
        i = i + 1;
    }
    assert(texts(out@) =~= labels(cats@));
    out
}

impl Business {
    /// The response shape of this business: nested location, media and
    /// rating blocks, and categories by display name.
    pub fn to_response(self) -> (r: BusinessResponse)
        ensures
            r.id == self.id,
            r.name == self.name,
            r.location.address == self.address,
            r.location.city == self.city,
            r.location.latitude_e7 == self.latitude_e7,
            r.location.longitude_e7 == self.longitude_e7,
            texts(r.categories@) == labels(self.categories@),
            r.specializations == self.specializations,
            r.media.map_logo == self.logo_map_url,
            r.is_registered == self.is_registered,
            r.rating.average_reviews_x100 == self.average_reviews_x100,
            r.rating.num_reviews == self.review_count,
    {
        let categories = category_names(&self.categories);
        BusinessResponse {
            id: self.id,
            name: self.name,
            location: Location {
                address: self.address,
                city: self.city,
                latitude_e7: self.latitude_e7,
                longitude_e7: self.longitude_e7,
            },
            categories,
            specializations: self.specializations,
            media: Media { map_logo: self.logo_map_url },
            is_registered: self.is_registered,
            rating: Rating {
                average_reviews_x100: self.average_reviews_x100,
                num_reviews: self.review_count,
            },
        }
    }

    /// Whether the lowercased term occurs in the lowercased name, address or
    /// the display name of one of the categories.
    pub fn matches_search_term(&self, term: &str) -> (r: bool)
        ensures
            r == self@.matches_term(term@),
    {
        let needle = chars_of(lowercase(term).as_str());
        let in_name = match &self.name {
            Some(n) => find_text(&chars_of(lowercase(n.as_str()).as_str()), &needle),
            None => false,
        };
        if in_name {
            return true;
        }
        let in_address = match &self.address {
            Some(a) => find_text(&chars_of(lowercase(a.as_str()).as_str()), &needle),
            None => false,
        };
        if in_address {
            return true;
        }
        let mut i: usize = 0;
        while i < self.categories.len()
            invariant
                i <= self@.categories.len(),
                needle@ == lower_of(term@),
                forall|j: int|
                    0 <= j < i ==> !contains_text(
                        lower_of(#[trigger] self@.categories[j].label()),
                        lower_of(term@),
                    ),
            decreases self@.categories.len() - i,
        {
            let label = chars_of(lowercase(self.categories[i].display_name()).as_str());
            if find_text(&label, &needle) {
                return true;
            }
            i = i + 1;
        }
        false
    }

    /// A copy of this record.
    pub fn duplicate(&self) -> (r: Business)
        ensures
            r@ == self@,
    {
        Business {
            id: self.id,
            osm_id: self.osm_id,
            name: copy_opt_text(&self.name),
            name_en: copy_opt_text(&self.name_en),
            address: copy_opt_text(&self.address),
            latitude_e7: self.latitude_e7,
            longitude_e7: self.longitude_e7,
            categories: copy_categories(&self.categories),
            specializations: copy_opt_texts(&self.specializations),
            created_at: self.created_at,
            updated_at: self.updated_at,
            logo_map_url: copy_opt_text(&self.logo_map_url),
            is_registered: self.is_registered,
            city: copy_opt_text(&self.city),
            average_reviews_x100: self.average_reviews_x100,
            review_count: self.review_count,
        }
    }
}

} // verus!
