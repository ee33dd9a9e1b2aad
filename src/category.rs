//! The closed set of business categories and the classifier that infers
//! them from map tags.
use vstd::prelude::*;

use crate::tags::{tag, Tags};
use crate::text::{chars_of, contains_text, find_text, lower_of, lowercase, text_eq};

verus! {

/// How many categories there are.
pub const CATEGORY_COUNT: u8 = 13;

/// A kind of car-related business. The declaration order is the canonical
/// order in which category lists are kept.
#[derive(Clone, Copy, Debug, PartialEq, Eq, Structural, PartialOrd, Ord, Hash)]
pub enum BusinessCategory {
    CarWash,
    Mobile,
    CarRepair,
    Parking,
    GasStation,
    ElectricVehicleChargingStation,
    CarDealer,
    CarRental,
    DetailingStudio,
    RimsShop,
    Tuning,
    TireShop,
    CarInspectionStation,
}

/// The category at position `k` of the canonical order.
pub open spec fn category_of_rank(k: nat) -> BusinessCategory {
    if k == 0 {
        BusinessCategory::CarWash
    } else if k == 1 {
        BusinessCategory::Mobile
    } else if k == 2 {
        BusinessCategory::CarRepair
    } else if k == 3 {
        BusinessCategory::Parking
    } else if k == 4 {
        BusinessCategory::GasStation
    } else if k == 5 {
        BusinessCategory::ElectricVehicleChargingStation
    } else if k == 6 {
        BusinessCategory::CarDealer
    } else if k == 7 {
        BusinessCategory::CarRental
    } else if k == 8 {
        BusinessCategory::DetailingStudio
    } else if k == 9 {
        BusinessCategory::RimsShop
    } else if k == 10 {
        BusinessCategory::Tuning
    } else if k == 11 {
        BusinessCategory::TireShop
    } else {
        BusinessCategory::CarInspectionStation
    }
}

impl BusinessCategory {
    /// Position in the canonical order.
    pub open spec fn rank(self) -> nat {
        match self {
            BusinessCategory::CarWash => 0,
            BusinessCategory::Mobile => 1,
            BusinessCategory::CarRepair => 2,
            BusinessCategory::Parking => 3,
            BusinessCategory::GasStation => 4,
            BusinessCategory::ElectricVehicleChargingStation => 5,
            BusinessCategory::CarDealer => 6,
            BusinessCategory::CarRental => 7,
            BusinessCategory::DetailingStudio => 8,
            BusinessCategory::RimsShop => 9,
            BusinessCategory::Tuning => 10,
            BusinessCategory::TireShop => 11,
            BusinessCategory::CarInspectionStation => 12,
        }
    }

    /// The human-readable name used in responses.
    pub open spec fn label(self) -> Seq<char> {
        match self {
            BusinessCategory::CarWash => "CarWash"@,
            BusinessCategory::Mobile => "Mobile"@,
            BusinessCategory::CarRepair => "CarRepair"@,
            BusinessCategory::Parking => "Parking"@,
            BusinessCategory::GasStation => "GasStation"@,
            BusinessCategory::ElectricVehicleChargingStation => "ElectricVehicleChargingStation"@,
            BusinessCategory::CarDealer => "CarDealer"@,
            BusinessCategory::CarRental => "CarRental"@,
            BusinessCategory::DetailingStudio => "DetailingStudio"@,
            BusinessCategory::RimsShop => "RimsShop"@,
            BusinessCategory::Tuning => "Tuning"@,
            BusinessCategory::TireShop => "TireShop"@,
            BusinessCategory::CarInspectionStation => "CarInspectionStation"@,
        }
    }
}

/// Ranks and positions are inverse to each other.
pub proof fn lemma_rank_bijective(c: BusinessCategory)
    ensures
        c.rank() < CATEGORY_COUNT,
        category_of_rank(c.rank()) == c,
{
    match c {
        BusinessCategory::CarWash => {},
        BusinessCategory::Mobile => {},
        BusinessCategory::CarRepair => {},
        BusinessCategory::Parking => {},
        BusinessCategory::GasStation => {},
        BusinessCategory::ElectricVehicleChargingStation => {},
        BusinessCategory::CarDealer => {},
        BusinessCategory::CarRental => {},
        BusinessCategory::DetailingStudio => {},
        BusinessCategory::RimsShop => {},
        BusinessCategory::Tuning => {},
        BusinessCategory::TireShop => {},
        BusinessCategory::CarInspectionStation => {},
    }
}

/// Without duplicates and in canonical order.
pub open spec fn is_canonical(cats: Seq<BusinessCategory>) -> bool {
    forall|i: int, j: int| 0 <= i < j < cats.len() ==> cats[i].rank() < cats[j].rank()
}

/// The categories of rank below `n` that satisfy `p`, in canonical order.
pub open spec fn members_below(p: spec_fn(BusinessCategory) -> bool, n: nat) -> Seq<
    BusinessCategory,
>
    decreases n,
{
    if n == 0 {
        Seq::empty()
    } else {
        let prev = members_below(p, (n - 1) as nat);
        let c = category_of_rank((n - 1) as nat);
        if p(c) {
            prev.push(c)
        } else {
            prev
        }
    }
}

/// The categories that satisfy `p`, in canonical order.
pub open spec fn canonical_members(p: spec_fn(BusinessCategory) -> bool) -> Seq<BusinessCategory> {
    members_below(p, CATEGORY_COUNT as nat)
}

proof fn lemma_members_below(p: spec_fn(BusinessCategory) -> bool, n: nat)
    requires
        n <= CATEGORY_COUNT,
    ensures
        is_canonical(members_below(p, n)),
        forall|i: int|
            0 <= i < members_below(p, n).len() ==> (#[trigger] members_below(p, n)[i]).rank() < n,
        forall|c: BusinessCategory|
            #[trigger] members_below(p, n).contains(c) <==> (p(c) && c.rank() < n),
    decreases n,
{
    if n > 0 {
        let m = (n - 1) as nat;
        lemma_members_below(p, m);
        let prev = members_below(p, m);
        let c = category_of_rank(m);
        assert(c.rank() == m);
        assert forall|d: BusinessCategory| #[trigger]
            members_below(p, n).contains(d) <==> (p(d) && d.rank() < n) by {
            lemma_rank_bijective(d);
            if p(c) {
                assert(members_below(p, n) == prev.push(c));
                if d.rank() == m {
                    assert(members_below(p, n)[prev.len() as int] == d);
                } else if prev.contains(d) {
                    let k = choose|k: int| 0 <= k < prev.len() && prev[k] == d;
                    assert(members_below(p, n)[k] == d);
                }
            }
        }
    }
}

/// The distinct members of `cats`, in canonical order.
pub open spec fn canonical_form(cats: Seq<BusinessCategory>) -> Seq<BusinessCategory> {
    canonical_members(|c: BusinessCategory| cats.contains(c))
}

/// What `canonical_members` holds, and that it is canonical.
pub proof fn lemma_canonical_members(p: spec_fn(BusinessCategory) -> bool)
    ensures
        is_canonical(canonical_members(p)),
        forall|c: BusinessCategory| #[trigger] canonical_members(p).contains(c) <==> p(c),
{
    lemma_members_below(p, CATEGORY_COUNT as nat);
    assert forall|c: BusinessCategory| #[trigger] canonical_members(p).contains(c) <==> p(c) by {
        lemma_rank_bijective(c);
    }
}

proof fn lemma_canonical_lists_with_same_members(a: Seq<BusinessCategory>, b: Seq<BusinessCategory>)
    requires
        is_canonical(a),
        is_canonical(b),
        forall|c: BusinessCategory|
            #![trigger a.contains(c)]
            #![trigger b.contains(c)]
            a.contains(c) <==> b.contains(c),
    ensures
        a == b,
    decreases a.len(),
{
    if a.len() == 0 {
        if b.len() > 0 {
            assert(b.contains(b[0]));
        }
        assert(b =~= a);
    } else {
        let x = a.last();
        assert(a.contains(x));
        let j = choose|j: int| 0 <= j < b.len() && b[j] == x;
        let y = b.last();
        assert(b.contains(y));
        let i = choose|i: int| 0 <= i < a.len() && a[i] == y;
        if j < b.len() - 1 {
            assert(b[j].rank() < y.rank());
        }
        if i < a.len() - 1 {
            assert(a[i].rank() < x.rank());
        }
        lemma_rank_bijective(x);
        lemma_rank_bijective(y);
        assert(x == y);
        let a1 = a.drop_last();
        let b1 = b.drop_last();
        assert forall|c: BusinessCategory|
            #![trigger a1.contains(c)]
            #![trigger b1.contains(c)]
            a1.contains(c) <==> b1.contains(c) by {
            if a1.contains(c) {
                let k = choose|k: int| 0 <= k < a1.len() && a1[k] == c;
                assert(a[k].rank() < x.rank());
                assert(a.contains(c));
                let m = choose|m: int| 0 <= m < b.len() && b[m] == c;
                assert(m != b.len() - 1);
                assert(b1[m] == c);
            }
            if b1.contains(c) {
                let k = choose|k: int| 0 <= k < b1.len() && b1[k] == c;
                assert(b[k].rank() < y.rank());
                assert(b.contains(c));
                let m = choose|m: int| 0 <= m < a.len() && a[m] == c;
                assert(m != a.len() - 1);
                assert(a1[m] == c);
            }
        }
        lemma_canonical_lists_with_same_members(a1, b1);
        assert(a =~= a1.push(x));
        assert(b =~= b1.push(y));
    }
}

/// A canonical list is its own canonical form.
pub proof fn lemma_canonical_form_of_canonical(cats: Seq<BusinessCategory>)
    requires
        is_canonical(cats),
    ensures
        canonical_form(cats) == cats,
{
    lemma_canonical_members(|c: BusinessCategory| cats.contains(c));
    lemma_canonical_lists_with_same_members(canonical_form(cats), cats);
}

/// The category that an `amenity` tag value names.
pub open spec fn amenity_category(v: Seq<char>) -> Option<BusinessCategory> {
    if v == "fuel"@ {
        Some(BusinessCategory::GasStation)
    } else if v == "charging_station"@ {
        Some(BusinessCategory::ElectricVehicleChargingStation)
    } else if v == "car_wash"@ {
        Some(BusinessCategory::CarWash)
    } else if v == "car_rental"@ {
        Some(BusinessCategory::CarRental)
    } else if v == "parking"@ || v == "parking_space"@ {
        Some(BusinessCategory::Parking)
    } else {
        None
    }
}

/// The category that a `shop` tag value names.
pub open spec fn shop_category(v: Seq<char>) -> Option<BusinessCategory> {
    if v == "car_repair"@ || v == "car_parts"@ {
        Some(BusinessCategory::CarRepair)
    } else if v == "car"@ {
        Some(BusinessCategory::CarDealer)
    } else if v == "tyres"@ {
        Some(BusinessCategory::TireShop)
    } else if v == "wheels"@ {
        Some(BusinessCategory::RimsShop)
    } else {
        None
    }
}

/// The category that a `craft` tag value names.
pub open spec fn craft_category(v: Seq<char>) -> Option<BusinessCategory> {
    if v == "car_repair"@ || v == "automotive"@ {
        Some(BusinessCategory::CarRepair)
    } else {
        None
    }
}

/// The category that a `service` tag value names.
pub open spec fn service_category(v: Seq<char>) -> Option<BusinessCategory> {
    if v == "vehicle_inspection"@ {
        Some(BusinessCategory::CarInspectionStation)
    } else if v == "car_wash"@ {
        Some(BusinessCategory::CarWash)
    } else {
        None
    }
}

/// The category that an `automotive` tag value names.
pub open spec fn automotive_category(v: Seq<char>) -> Option<BusinessCategory> {
    if v == "car_wash"@ {
        Some(BusinessCategory::CarWash)
    } else if v == "car_repair"@ {
        Some(BusinessCategory::CarRepair)
    } else if v == "fuel"@ {
        Some(BusinessCategory::GasStation)
    } else {
        None
    }
}

/// The category that the value of `key` names through `table`, if any.
pub open spec fn keyed_category(
    tags: Map<Seq<char>, Seq<char>>,
    key: Seq<char>,
    table: spec_fn(Seq<char>) -> Option<BusinessCategory>,
) -> Option<BusinessCategory> {
    match tag(tags, key) {
        Some(v) => table(v),
        None => None,
    }
}

/// A `car_wash` key is present, or the lowercased name mentions a car wash.
pub open spec fn car_wash_by_name_or_key(tags: Map<Seq<char>, Seq<char>>) -> bool {
    ||| tags.contains_key("car_wash"@)
    ||| tags.contains_key("name"@) && contains_text(lower_of(tags["name"@]), "car wash"@)
    ||| tags.contains_key("name"@) && contains_text(lower_of(tags["name"@]), "автомивка"@)
}

/// `c` is suggested by one of the examined tag keys or by the car-wash heuristic.
pub open spec fn suggested_by(tags: Map<Seq<char>, Seq<char>>, c: BusinessCategory) -> bool {
    ||| keyed_category(tags, "amenity"@, |v| amenity_category(v)) == Some(c)
    ||| keyed_category(tags, "shop"@, |v| shop_category(v)) == Some(c)
    ||| keyed_category(tags, "craft"@, |v| craft_category(v)) == Some(c)
    ||| keyed_category(tags, "service"@, |v| service_category(v)) == Some(c)
    ||| keyed_category(tags, "automotive"@, |v| automotive_category(v)) == Some(c)
    ||| c == BusinessCategory::CarWash && car_wash_by_name_or_key(tags)
}

/// The categories of a tag map: every suggested category once, in canonical order.
pub open spec fn classify(tags: Map<Seq<char>, Seq<char>>) -> Seq<BusinessCategory> {
    canonical_members(|c: BusinessCategory| suggested_by(tags, c))
}

/// A tag map describes a car-related business when it yields a category.
pub open spec fn is_car_related(tags: Map<Seq<char>, Seq<char>>) -> bool {
    classify(tags).len() > 0
}

/// The classification of any tags is canonical, and holds exactly the
/// suggested categories.
pub proof fn lemma_classify_canonical(tags: Map<Seq<char>, Seq<char>>)
    ensures
        is_canonical(classify(tags)),
        forall|c: BusinessCategory| #[trigger] classify(tags).contains(c) <==> suggested_by(tags, c),
{
    lemma_canonical_members(|c: BusinessCategory| suggested_by(tags, c));
}

/// Tags that name no known value under any examined key and carry no
/// car-wash name or key classify to nothing: the element is not car-related.
pub proof fn lemma_unrecognized_tags_classify_to_nothing(tags: Map<Seq<char>, Seq<char>>)
    requires
        keyed_category(tags, "amenity"@, |v| amenity_category(v)) is None,
        keyed_category(tags, "shop"@, |v| shop_category(v)) is None,
        keyed_category(tags, "craft"@, |v| craft_category(v)) is None,
        keyed_category(tags, "service"@, |v| service_category(v)) is None,
        keyed_category(tags, "automotive"@, |v| automotive_category(v)) is None,
        !car_wash_by_name_or_key(tags),
    ensures
        classify(tags) == Seq::<BusinessCategory>::empty(),
        !is_car_related(tags),
{
    lemma_canonical_members(|c: BusinessCategory| suggested_by(tags, c));
    if classify(tags).len() > 0 {
        assert(classify(tags).contains(classify(tags)[0]));
    }
    assert(classify(tags) =~= Seq::<BusinessCategory>::empty());
}

/// Classification sees only the key/value pairs: two tag maps that hold the
/// same pairs, however they were built, classify to the same list.
pub proof fn lemma_classify_depends_on_pairs_only(
    a: Map<Seq<char>, Seq<char>>,
    b: Map<Seq<char>, Seq<char>>,
)
    requires
        forall|k: Seq<char>| #[trigger] a.contains_key(k) <==> b.contains_key(k),
        forall|k: Seq<char>| #[trigger] a.contains_key(k) ==> a[k] == b[k],
    ensures
        classify(a) == classify(b),
{
    assert(a =~= b);
}

/// Setting two different keys in either order classifies alike.
pub proof fn lemma_classify_ignores_insertion_order(
    tags: Map<Seq<char>, Seq<char>>,
    k1: Seq<char>,
    v1: Seq<char>,
    k2: Seq<char>,
    v2: Seq<char>,
)
    requires
        k1 != k2,
    ensures
        classify(tags.insert(k1, v1).insert(k2, v2)) == classify(tags.insert(k2, v2).insert(k1, v1)),
{
    assert(tags.insert(k1, v1).insert(k2, v2) =~= tags.insert(k2, v2).insert(k1, v1));
}

/// Whether `c` occurs in `cats`.
pub fn includes_category(cats: &Vec<BusinessCategory>, c: BusinessCategory) -> (r: bool)
    ensures
        r == cats@.contains(c),
{
    let mut i: usize = 0;
    while i < cats.len()
        invariant
            i <= cats@.len(),
            forall|j: int| 0 <= j < i ==> cats@[j] != c,
        decreases cats@.len() - i,
    {
        if cats[i] == c {
            assert(cats@[i as int] == c);
            return true;
        }
        i = i + 1;
    }
    false
}

/// Whether an already lowercased name mentions a car wash, in English or
/// in Bulgarian.
pub fn names_car_wash(lower_name: &str) -> (r: bool)
    ensures
        r == (contains_text(lower_name@, "car wash"@) || contains_text(lower_name@, "автомивка"@)),
{
    let name = chars_of(lower_name);
    find_text(&name, &chars_of("car wash")) || find_text(&name, &chars_of("автомивка"))
}

/// Whether `found` is `c`.
fn names(found: Option<BusinessCategory>, c: BusinessCategory) -> (r: bool)
    ensures
        r == (found == Some(c)),
{
    match found {
        Some(d) => d == c,
        None => false,
    }
}

/// The distinct categories of `found`, in canonical order.
pub fn canonical_categories(found: &Vec<BusinessCategory>) -> (r: Vec<BusinessCategory>)
    ensures
        r@ == canonical_form(found@),
        is_canonical(r@),
{
    let ghost p = |c: BusinessCategory| found@.contains(c);
    let mut out: Vec<BusinessCategory> = Vec::new();
    let mut k: u8 = 0;
    while k < CATEGORY_COUNT
        invariant
            k <= CATEGORY_COUNT,
            p == (|c: BusinessCategory| found@.contains(c)),
            out@ == members_below(p, k as nat),
        decreases CATEGORY_COUNT - k,
    {
        let c = BusinessCategory::from_rank(k);
        if includes_category(found, c) {
            out.push(c);
        }
        k = k + 1;
    }
    proof {
        lemma_canonical_members(p);
    }
    out
}

impl BusinessCategory {
    /// The category at position `k` of the canonical order.
    pub fn from_rank(k: u8) -> (c: BusinessCategory)
        requires
            k < CATEGORY_COUNT,
        ensures
            c == category_of_rank(k as nat),
    {
        match k {
            0 => BusinessCategory::CarWash,
            1 => BusinessCategory::Mobile,
            2 => BusinessCategory::CarRepair,
            3 => BusinessCategory::Parking,
            4 => BusinessCategory::GasStation,
            5 => BusinessCategory::ElectricVehicleChargingStation,
            6 => BusinessCategory::CarDealer,
            7 => BusinessCategory::CarRental,
            8 => BusinessCategory::DetailingStudio,
            9 => BusinessCategory::RimsShop,
            10 => BusinessCategory::Tuning,
            11 => BusinessCategory::TireShop,
            _ => BusinessCategory::CarInspectionStation,
        }
    }

    /// Infers the categories of a map element from its tags: each examined
    /// key contributes at most one category, a car-wash name or key adds
    /// `CarWash`, and the result holds each category once, in canonical order.
    pub fn from_osm_tags(tags: &Tags) -> (r: Vec<BusinessCategory>)
        ensures
            r@ == classify(tags@),
            is_canonical(r@),
    {
        let ghost t = tags@;
        let amenity = match tags.get("amenity") {
            Some(v) => Self::from_amenity_tag(v.as_str()),
            None => None,
        };
        let shop = match tags.get("shop") {
            Some(v) => Self::from_shop_tag(v.as_str()),
            None => None,
        };
        let craft = match tags.get("craft") {
            Some(v) => Self::from_craft_tag(v.as_str()),
            None => None,
        };
        let service = match tags.get("service") {
            Some(v) => Self::from_service_tag(v.as_str()),
            None => None,
        };
        let automotive = match tags.get("automotive") {
            Some(v) => Self::from_automotive_tag(v.as_str()),
            None => None,
        };
        let wash = Self::is_car_wash_by_name_or_key(tags);
        let ghost p = |c: BusinessCategory| suggested_by(t, c);
        let mut out: Vec<BusinessCategory> = Vec::new();
        let mut k: u8 = 0;
        while k < CATEGORY_COUNT
            invariant
                k <= CATEGORY_COUNT,
                p == (|c: BusinessCategory| suggested_by(t, c)),
                out@ == members_below(p, k as nat),
                amenity == keyed_category(t, "amenity"@, |v| amenity_category(v)),
                shop == keyed_category(t, "shop"@, |v| shop_category(v)),
                craft == keyed_category(t, "craft"@, |v| craft_category(v)),
                service == keyed_category(t, "service"@, |v| service_category(v)),
                automotive == keyed_category(t, "automotive"@, |v| automotive_category(v)),
                wash == car_wash_by_name_or_key(t),
            decreases CATEGORY_COUNT - k,
        {
            let c = Self::from_rank(k);
            if names(amenity, c) || names(shop, c) || names(craft, c) || names(service, c) || names(
                automotive,
                c,
            ) || (wash && c == BusinessCategory::CarWash) {
                out.push(c);
            }
            k = k + 1;
        }
        proof {
            lemma_canonical_members(p);
        }
        out
    }

    /// Whether the tags describe a car-related business.
    pub fn is_car_related_osm_element(tags: &Tags) -> (r: bool)
        ensures
            r == is_car_related(tags@),
    {
        Self::from_osm_tags(tags).len() > 0
    }

    fn from_amenity_tag(amenity: &str) -> (r: Option<BusinessCategory>)
        ensures
            r == amenity_category(amenity@),
    {
        if text_eq(amenity, "fuel") {
            Some(BusinessCategory::GasStation)
        } else if text_eq(amenity, "charging_station") {
            Some(BusinessCategory::ElectricVehicleChargingStation)
        } else if text_eq(amenity, "car_wash") {
            Some(BusinessCategory::CarWash)
        } else if text_eq(amenity, "car_rental") {
            Some(BusinessCategory::CarRental)
        } else if text_eq(amenity, "parking") || text_eq(amenity, "parking_space") {
            Some(BusinessCategory::Parking)
        } else {
            None
        }
    }

    fn from_shop_tag(shop: &str) -> (r: Option<BusinessCategory>)
        ensures
            r == shop_category(shop@),
    {
        if text_eq(shop, "car_repair") || text_eq(shop, "car_parts") {
            Some(BusinessCategory::CarRepair)
        } else if text_eq(shop, "car") {
            Some(BusinessCategory::CarDealer)
        } else if text_eq(shop, "tyres") {
            Some(BusinessCategory::TireShop)
        } else if text_eq(shop, "wheels") {
            Some(BusinessCategory::RimsShop)
        } else {
            None
        }
    }

    fn from_craft_tag(craft: &str) -> (r: Option<BusinessCategory>)
        ensures
            r == craft_category(craft@),
    {
        if text_eq(craft, "car_repair") || text_eq(craft, "automotive") {
            Some(BusinessCategory::CarRepair)
        } else {
            None
        }
    }

    fn from_service_tag(service: &str) -> (r: Option<BusinessCategory>)
        ensures
            r == service_category(service@),
    {
        if text_eq(service, "vehicle_inspection") {
            Some(BusinessCategory::CarInspectionStation)
        } else if text_eq(service, "car_wash") {
            Some(BusinessCategory::CarWash)
        } else {
            None
        }
    }

    fn from_automotive_tag(automotive: &str) -> (r: Option<BusinessCategory>)
        ensures
            r == automotive_category(automotive@),
    {
        if text_eq(automotive, "car_wash") {
            Some(BusinessCategory::CarWash)
        } else if text_eq(automotive, "car_repair") {
            Some(BusinessCategory::CarRepair)
        } else if text_eq(automotive, "fuel") {
            Some(BusinessCategory::GasStation)
        } else {
            None
        }
    }

    fn is_car_wash_by_name_or_key(tags: &Tags) -> (r: bool)
        ensures
            r == car_wash_by_name_or_key(tags@),
    {
        if tags.contains_key("car_wash") {
            return true;
        }
        match tags.get("name") {
            Some(name) => names_car_wash(lowercase(name.as_str()).as_str()),
            None => false,
        }
    }

    /// The human-readable name of the category.
    pub fn display_name(&self) -> (r: &'static str)
        ensures
            r@ == self.label(),
    {
        match self {
            BusinessCategory::CarWash => "CarWash",
            BusinessCategory::Mobile => "Mobile",
            BusinessCategory::CarRepair => "CarRepair",
            BusinessCategory::Parking => "Parking",
            BusinessCategory::GasStation => "GasStation",
            BusinessCategory::ElectricVehicleChargingStation => "ElectricVehicleChargingStation",
            BusinessCategory::CarDealer => "CarDealer",
            BusinessCategory::CarRental => "CarRental",
            BusinessCategory::DetailingStudio => "DetailingStudio",
            BusinessCategory::RimsShop => "RimsShop",
            BusinessCategory::Tuning => "Tuning",
            BusinessCategory::TireShop => "TireShop",
            BusinessCategory::CarInspectionStation => "CarInspectionStation",
        }
    }
}

} // verus!
