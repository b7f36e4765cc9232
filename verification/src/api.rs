//! The data model for one tracked rental unit: the parsed listing payload
//! (`ApiApartment`), its lifecycle wrapper (`Apartment`), and the
//! structural equality, display and serialization rules on them.
//!
//! Dates and money are held as plain integers: a date as its calendar
//! fields, a price as whole dollars, an area as whole square feet.
//! Timestamps (`listed`, `unlisted`) are in seconds.
//!
//! Every type has a mathematical view (`v()`) over sequences and plain
//! values; the contracts of this crate speak of those views, and
//! structural equality of two payloads is equality of their views.

use vstd::prelude::*;

use crate::duration::PrettyDuration;
use crate::duration::pretty_duration_str;
use crate::strutil::dec_str;
use crate::strutil::join_with;
use crate::strutil::join_strings;
use crate::strutil::u64_to_string;
use crate::strutil::push_char;

verus! {

/// A calendar date with time of day, as plain fields.
#[derive(Clone, Copy, PartialEq, Eq, Structural, Debug)]
pub struct AvaDate {
    pub year: u64,
    pub month: u64,
    pub day: u64,
    pub hour: u64,
    pub minute: u64,
    pub second: u64,
}

/// The three-letter month abbreviation.
pub open spec fn month_abbrev(month: int) -> Seq<char> {
    if month == 1 {
        "Jan"@
    } else if month == 2 {
        "Feb"@
    } else if month == 3 {
        "Mar"@
    } else if month == 4 {
        "Apr"@
    } else if month == 5 {
        "May"@
    } else if month == 6 {
        "Jun"@
    } else if month == 7 {
        "Jul"@
    } else if month == 8 {
        "Aug"@
    } else if month == 9 {
        "Sep"@
    } else if month == 10 {
        "Oct"@
    } else if month == 11 {
        "Nov"@
    } else {
        "Dec"@
    }
}

/// The day of the month padded to two columns with a space, as `%e` does.
pub open spec fn day_padded(day: nat) -> Seq<char> {
    if day < 10 {
        seq![' '] + dec_str(day)
    } else {
        dec_str(day)
    }
}

/// A date rendered as `"Oct 21 2022"` (`%b %e %Y`).
pub open spec fn ava_date_display(d: AvaDate) -> Seq<char> {
    month_abbrev(d.month as int) + seq![' '] + day_padded(d.day as nat) + seq![' '] + dec_str(
        d.year as nat,
    )
}

impl AvaDate {
    /// A well-formed calendar date; display relies on the month range.
    pub open spec fn wf(self) -> bool {
        &&& 1 <= self.month <= 12
        &&& 1 <= self.day <= 31
        &&& self.hour < 24
        &&& self.minute < 60
        &&& self.second < 60
        &&& self.year <= 9999
    }

    fn month_str(&self) -> (r: &'static str)
        requires
            1 <= self.month <= 12,
        ensures
            r@ == month_abbrev(self.month as int),
    {
        if self.month == 1 {
            "Jan"
        } else if self.month == 2 {
            "Feb"
        } else if self.month == 3 {
            "Mar"
        } else if self.month == 4 {
            "Apr"
        } else if self.month == 5 {
            "May"
        } else if self.month == 6 {
            "Jun"
        } else if self.month == 7 {
            "Jul"
        } else if self.month == 8 {
            "Aug"
        } else if self.month == 9 {
            "Sep"
        } else if self.month == 10 {
            "Oct"
        } else if self.month == 11 {
            "Nov"
        } else {
            "Dec"
        }
    }

    /// Renders the date as `"Oct 21 2022"`: abbreviated month, the day
    /// space-padded to two columns, and the year.
    pub fn format_short(&self) -> (r: String)
        requires
            self.wf(),
        ensures
            r@ == ava_date_display(*self),
    {
        let mut r = String::new();
        r.append(self.month_str());
        r.append(" ");
        proof {
            reveal_strlit(" ");
            assert(" "@ =~= seq![' ']);
        }
        if self.day < 10 {
            r.append(" ");
        }
        let ds = u64_to_string(self.day);
        r.append(ds.as_str());
        r.append(" ");
        let ys = u64_to_string(self.year);
        r.append(ys.as_str());
        assert(r@ =~= ava_date_display(*self));
        r
    }
}

/// Whether a unit comes furnished; `Furnished` is what upstream calls a
/// designated furnished unit.
#[derive(Clone, Copy, PartialEq, Eq, Structural, Debug)]
pub enum Furnished {
    Unfurnished,
    OnDemand,
    Furnished,
}

#[derive(Debug)]
pub struct FloorPlan {
    pub name: String,
    pub low_resolution: String,
    pub high_resolution: String,
}

#[derive(Debug)]
pub struct VirtualTour {
    pub space: String,
    pub is_actual_unit: bool,
}

/// A price in whole dollars, with the net effective price after discounts.
#[derive(Clone, Copy, PartialEq, Eq, Structural, Debug)]
pub struct Price {
    pub price: u64,
    pub net_effective_price: u64,
}

/// Prices per lease term (term length in months, price) for one move-in
/// date.
#[derive(Debug)]
pub struct PricesForMoveInDate {
    pub move_in_date: AvaDate,
    pub prices_per_terms: Vec<(u64, Price)>,
}

#[derive(Debug)]
pub struct Rent {
    pub applied_discount: u64,
    pub prices_per_movein_date: Vec<PricesForMoveInDate>,
}

#[derive(Debug)]
pub struct LowestRent {
    pub date: AvaDate,
    pub term_length: String,
    pub price: Price,
}

#[derive(Debug)]
pub struct ApplicablePromotion {
    pub promotion_id: String,
    pub start_date: AvaDate,
    pub end_date: Option<AvaDate>,
    pub terms: Vec<u64>,
}

/// The parsed, externally sourced payload of one listing at one point in
/// time. `extra` is an order-preserving key/value bag of upstream fields
/// this model does not name, kept so that equality and serialization see
/// upstream schema growth.
#[derive(Debug)]
pub struct ApiApartment {
    pub unit_id: String,
    pub number: String,
    pub furnished: Furnished,
    pub floor_plan: FloorPlan,
    pub virtual_tour: Option<VirtualTour>,
    pub bedroom: usize,
    pub bathroom: usize,
    pub square_feet: u64,
    pub available_date: AvaDate,
    pub rent: Rent,
    pub lowest_rent: LowestRent,
    pub promotions: Vec<ApplicablePromotion>,
    pub extra: Vec<(String, String)>,
}

// ---------------------------------------------------------------------
// Mathematical views. Structural equality of two payloads is equality of
// their views.
// ---------------------------------------------------------------------

#[verifier::ext_equal]
pub struct FloorPlanV {
    pub name: Seq<char>,
    pub low_resolution: Seq<char>,
    pub high_resolution: Seq<char>,
}

#[verifier::ext_equal]
pub struct VirtualTourV {
    pub space: Seq<char>,
    pub is_actual_unit: bool,
}

#[verifier::ext_equal]
pub struct PricesForMoveInDateV {
    pub move_in_date: AvaDate,
    pub prices_per_terms: Seq<(u64, Price)>,
}

#[verifier::ext_equal]
pub struct RentV {
    pub applied_discount: u64,
    pub prices_per_movein_date: Seq<PricesForMoveInDateV>,
}

#[verifier::ext_equal]
pub struct LowestRentV {
    pub date: AvaDate,
    pub term_length: Seq<char>,
    pub price: Price,
}

#[verifier::ext_equal]
pub struct ApplicablePromotionV {
    pub promotion_id: Seq<char>,
    pub start_date: AvaDate,
    pub end_date: Option<AvaDate>,
    pub terms: Seq<u64>,
}

#[verifier::ext_equal]
pub struct ApiApartmentV {
    pub unit_id: Seq<char>,
    pub number: Seq<char>,
    pub furnished: Furnished,
    pub floor_plan: FloorPlanV,
    pub virtual_tour: Option<VirtualTourV>,
    pub bedroom: usize,
    pub bathroom: usize,
    pub square_feet: u64,
    pub available_date: AvaDate,
    pub rent: RentV,
    pub lowest_rent: LowestRentV,
    pub promotions: Seq<ApplicablePromotionV>,
    pub extra: Seq<(Seq<char>, Seq<char>)>,
}

impl FloorPlan {
    pub open spec fn v(self) -> FloorPlanV {
        FloorPlanV {
            name: self.name@,
            low_resolution: self.low_resolution@,
            high_resolution: self.high_resolution@,
        }
    }
}

impl VirtualTour {
    pub open spec fn v(self) -> VirtualTourV {
        VirtualTourV { space: self.space@, is_actual_unit: self.is_actual_unit }
    }
}

pub open spec fn virtual_tour_view(t: Option<VirtualTour>) -> Option<VirtualTourV> {
    match t {
        Option::Some(t) => Option::Some(t.v()),
        Option::None => Option::None,
    }
}

impl PricesForMoveInDate {
    pub open spec fn v(self) -> PricesForMoveInDateV {
        PricesForMoveInDateV {
            move_in_date: self.move_in_date,
            prices_per_terms: self.prices_per_terms@,
        }
    }
}

impl Rent {
    pub open spec fn v(self) -> RentV {
        RentV {
            applied_discount: self.applied_discount,
            prices_per_movein_date: self.prices_per_movein_date@.map_values(
                |p: PricesForMoveInDate| p.v(),
            ),
        }
    }
}

impl LowestRent {
    pub open spec fn v(self) -> LowestRentV {
        LowestRentV { date: self.date, term_length: self.term_length@, price: self.price }
    }
}

impl ApplicablePromotion {
    pub open spec fn v(self) -> ApplicablePromotionV {
        ApplicablePromotionV {
            promotion_id: self.promotion_id@,
            start_date: self.start_date,
            end_date: self.end_date,
            terms: self.terms@,
        }
    }
}

impl ApiApartment {
    pub open spec fn v(self) -> ApiApartmentV {
        ApiApartmentV {
            unit_id: self.unit_id@,
            number: self.number@,
            furnished: self.furnished,
            floor_plan: self.floor_plan.v(),
            virtual_tour: virtual_tour_view(self.virtual_tour),
            bedroom: self.bedroom,
            bathroom: self.bathroom,
            square_feet: self.square_feet,
            available_date: self.available_date,
            rent: self.rent.v(),
            lowest_rent: self.lowest_rent.v(),
            promotions: self.promotions@.map_values(|p: ApplicablePromotion| p.v()),
            extra: self.extra@.map_values(|e: (String, String)| (e.0@, e.1@)),
        }
    }
}

impl ApiApartmentV {
    /// A well-formed payload: every date it carries is a real calendar
    /// date, which display and serialization rely on.
    pub open spec fn wf(self) -> bool {
        &&& self.available_date.wf()
        &&& self.lowest_rent.date.wf()
        &&& forall|i: int|
            0 <= i < self.rent.prices_per_movein_date.len() ==> (
            #[trigger] self.rent.prices_per_movein_date[i]).move_in_date.wf()
        &&& forall|i: int|
            0 <= i < self.promotions.len() ==> promotion_dates_wf(#[trigger] self.promotions[i])
    }
}

pub open spec fn promotion_dates_wf(p: ApplicablePromotionV) -> bool {
    p.start_date.wf() && match p.end_date {
        Option::Some(d) => d.wf(),
        Option::None => true,
    }
}

pub open spec fn movein_view(s: Seq<PricesForMoveInDate>) -> Seq<PricesForMoveInDateV> {
    s.map_values(|p: PricesForMoveInDate| p.v())
}

pub open spec fn promotions_view(s: Seq<ApplicablePromotion>) -> Seq<ApplicablePromotionV> {
    s.map_values(|p: ApplicablePromotion| p.v())
}

pub open spec fn extra_view(s: Seq<(String, String)>) -> Seq<(Seq<char>, Seq<char>)> {
    s.map_values(|e: (String, String)| (e.0@, e.1@))
}

// ---------------------------------------------------------------------
// Deep copies that provably keep the view.
// ---------------------------------------------------------------------

fn copy_price_entries(v: &Vec<(u64, Price)>) -> (r: Vec<(u64, Price)>)
    ensures
        r@ == v@,
{
    let mut r: Vec<(u64, Price)> = Vec::new();
    let mut i: usize = 0;
    while i < v.len()
        invariant
            i <= v.len(),
            r@ == v@.take(i as int),
        decreases v.len() - i,
    {
        r.push(v[i]);
        assert(r@ =~= v@.take(i + 1));
        i = i + 1;
    }
    assert(r@ =~= v@);
    r
}

fn copy_terms(v: &Vec<u64>) -> (r: Vec<u64>)
    ensures
        r@ == v@,
{
    let mut r: Vec<u64> = Vec::new();
    let mut i: usize = 0;
    while i < v.len()
        invariant
            i <= v.len(),
            r@ == v@.take(i as int),
        decreases v.len() - i,
    {
        r.push(v[i]);
        assert(r@ =~= v@.take(i + 1));
        i = i + 1;
    }
    assert(r@ =~= v@);
    r
}

impl FloorPlan {
    /// A copy with the same view.
    pub fn duplicate(&self) -> (r: FloorPlan)
        ensures
            r.v() == self.v(),
    {
        FloorPlan {
            name: self.name.clone(),
            low_resolution: self.low_resolution.clone(),
            high_resolution: self.high_resolution.clone(),
        }
    }
}

impl PricesForMoveInDate {
    /// A copy with the same view.
    pub fn duplicate(&self) -> (r: PricesForMoveInDate)
        ensures
            r.v() == self.v(),
    {
        PricesForMoveInDate {
            move_in_date: self.move_in_date,
            prices_per_terms: copy_price_entries(&self.prices_per_terms),
        }
    }
}

impl Rent {
    /// A copy with the same view.
    pub fn duplicate(&self) -> (r: Rent)
        ensures
            r.v() == self.v(),
    {
        let mut entries: Vec<PricesForMoveInDate> = Vec::new();
        let mut i: usize = 0;
        while i < self.prices_per_movein_date.len()
            invariant
                i <= self.prices_per_movein_date.len(),
                entries@.len() == i,
                forall|j: int|
                    0 <= j < i ==> (#[trigger] entries@[j]).v()
                        == self.prices_per_movein_date@[j].v(),
            decreases self.prices_per_movein_date.len() - i,
        {
            let e = self.prices_per_movein_date[i].duplicate();
            entries.push(e);
            i = i + 1;
        }
        let r = Rent { applied_discount: self.applied_discount, prices_per_movein_date: entries };
        assert(r.v() =~= self.v()) by {
            assert(movein_view(r.prices_per_movein_date@) =~= movein_view(
                self.prices_per_movein_date@,
            ));
        };
        r
    }
}

impl LowestRent {
    /// A copy with the same view.
    pub fn duplicate(&self) -> (r: LowestRent)
        ensures
            r.v() == self.v(),
    {
        LowestRent {
            date: self.date,
            term_length: self.term_length.clone(),
            price: self.price,
        }
    }
}

impl ApplicablePromotion {
    /// A copy with the same view.
    pub fn duplicate(&self) -> (r: ApplicablePromotion)
        ensures
            r.v() == self.v(),
    {
        ApplicablePromotion {
            promotion_id: self.promotion_id.clone(),
            start_date: self.start_date,
            end_date: self.end_date,
            terms: copy_terms(&self.terms),
        }
    }
}

impl ApiApartment {
    /// A copy with the same view.
    pub fn duplicate(&self) -> (r: ApiApartment)
        ensures
            r.v() == self.v(),
    {
        let virtual_tour = match &self.virtual_tour {
            Option::Some(t) => Option::Some(
                VirtualTour { space: t.space.clone(), is_actual_unit: t.is_actual_unit },
            ),
            Option::None => Option::None,
        };
        let mut promotions: Vec<ApplicablePromotion> = Vec::new();
        let mut i: usize = 0;
        while i < self.promotions.len()
            invariant
                i <= self.promotions.len(),
                promotions@.len() == i,
                forall|j: int|
                    0 <= j < i ==> (#[trigger] promotions@[j]).v() == self.promotions@[j].v(),
            decreases self.promotions.len() - i,
        {
            let p = self.promotions[i].duplicate();
            promotions.push(p);
            i = i + 1;
        }
        let mut extra: Vec<(String, String)> = Vec::new();
        let mut k: usize = 0;
        while k < self.extra.len()
            invariant
                k <= self.extra.len(),
                extra@.len() == k,
                forall|j: int|
                    0 <= j < k ==> (#[trigger] extra@[j]).0@ == self.extra@[j].0@ && extra@[j].1@
                        == self.extra@[j].1@,
            decreases self.extra.len() - k,
        {
            let key = self.extra[k].0.clone();
            let value = self.extra[k].1.clone();
            extra.push((key, value));
            k = k + 1;
        }
        let r = ApiApartment {
            unit_id: self.unit_id.clone(),
            number: self.number.clone(),
            furnished: self.furnished,
            floor_plan: self.floor_plan.duplicate(),
            virtual_tour,
            bedroom: self.bedroom,
            bathroom: self.bathroom,
            square_feet: self.square_feet,
            available_date: self.available_date,
            rent: self.rent.duplicate(),
            lowest_rent: self.lowest_rent.duplicate(),
            promotions,
            extra,
        };
        assert(r.v() =~= self.v()) by {
            assert(promotions_view(r.promotions@) =~= promotions_view(self.promotions@));
            assert(extra_view(r.extra@) =~= extra_view(self.extra@));
        };
        r
    }
}

// ---------------------------------------------------------------------
// Structural equality: two payloads are the same exactly when their
// views are equal.
// ---------------------------------------------------------------------

fn prices_per_terms_matches(a: &Vec<(u64, Price)>, b: &Vec<(u64, Price)>) -> (r: bool)
    ensures
        r == (a@ == b@),
{
    if a.len() != b.len() {
        assert(a@ != b@);
        return false;
    }
    let mut i: usize = 0;
    while i < a.len()
        invariant
            i <= a.len(),
            a.len() == b.len(),
            forall|j: int| 0 <= j < i ==> a@[j] == b@[j],
        decreases a.len() - i,
    {
        let (at, ap) = a[i];
        let (bt, bp) = b[i];
        if at != bt || ap.price != bp.price || ap.net_effective_price != bp.net_effective_price {
            assert(a@[i as int] != b@[i as int]);
            return false;
        }
        i = i + 1;
    }
    assert(a@ =~= b@);
    true
}

fn movein_matches(a: &PricesForMoveInDate, b: &PricesForMoveInDate) -> (r: bool)
    ensures
        r == (a.v() == b.v()),
{
    if a.move_in_date != b.move_in_date {
        return false;
    }
    let entries = prices_per_terms_matches(&a.prices_per_terms, &b.prices_per_terms);
    if entries {
        assert(a.v() =~= b.v());
    }
    entries
}

fn rent_matches(a: &Rent, b: &Rent) -> (r: bool)
    ensures
        r == (a.v() == b.v()),
{
    if a.applied_discount != b.applied_discount {
        return false;
    }
    if a.prices_per_movein_date.len() != b.prices_per_movein_date.len() {
        assert(a.v().prices_per_movein_date.len() != b.v().prices_per_movein_date.len());
        return false;
    }
    let mut i: usize = 0;
    while i < a.prices_per_movein_date.len()
        invariant
            i <= a.prices_per_movein_date.len(),
            a.prices_per_movein_date.len() == b.prices_per_movein_date.len(),
            a.applied_discount == b.applied_discount,
            forall|j: int|
                0 <= j < i ==> (#[trigger] a.prices_per_movein_date@[j]).v()
                    == b.prices_per_movein_date@[j].v(),
        decreases a.prices_per_movein_date.len() - i,
    {
        if !movein_matches(&a.prices_per_movein_date[i], &b.prices_per_movein_date[i]) {
            assert(a.v().prices_per_movein_date[i as int]
                != b.v().prices_per_movein_date[i as int]);
            return false;
        }
        i = i + 1;
    }
    assert(a.v() =~= b.v()) by {
        assert(movein_view(a.prices_per_movein_date@) =~= movein_view(b.prices_per_movein_date@));
    };
    true
}

fn terms_matches(a: &Vec<u64>, b: &Vec<u64>) -> (r: bool)
    ensures
        r == (a@ == b@),
{
    if a.len() != b.len() {
        assert(a@ != b@);
        return false;
    }
    let mut i: usize = 0;
    while i < a.len()
        invariant
            i <= a.len(),
            a.len() == b.len(),
            forall|j: int| 0 <= j < i ==> a@[j] == b@[j],
        decreases a.len() - i,
    {
        if a[i] != b[i] {
            assert(a@[i as int] != b@[i as int]);
            return false;
        }
        i = i + 1;
    }
    assert(a@ =~= b@);
    true
}

fn promotion_matches(a: &ApplicablePromotion, b: &ApplicablePromotion) -> (r: bool)
    ensures
        r == (a.v() == b.v()),
{
    let end_same = match (&a.end_date, &b.end_date) {
        (Option::None, Option::None) => true,
        (Option::Some(x), Option::Some(y)) => *x == *y,
        _ => false,
    };
    let same = a.promotion_id == b.promotion_id && a.start_date == b.start_date && end_same
        && terms_matches(&a.terms, &b.terms);
    if same {
        assert(a.v() =~= b.v());
    }
    same
}

impl ApiApartment {
    /// Structural equality with another payload: every field, including
    /// the `extra` bag, must agree.
    pub fn same_as(&self, other: &ApiApartment) -> (r: bool)
        ensures
            r == (self.v() == other.v()),
    {
        let tour_same = match (&self.virtual_tour, &other.virtual_tour) {
            (Option::None, Option::None) => true,
            (Option::Some(x), Option::Some(y)) => x.space == y.space && x.is_actual_unit
                == y.is_actual_unit,
            _ => false,
        };
        if !(tour_same && self.unit_id == other.unit_id && self.number == other.number
            && self.furnished == other.furnished && self.floor_plan.name == other.floor_plan.name
            && self.floor_plan.low_resolution == other.floor_plan.low_resolution
            && self.floor_plan.high_resolution == other.floor_plan.high_resolution && self.bedroom
            == other.bedroom && self.bathroom == other.bathroom && self.square_feet
            == other.square_feet && self.available_date == other.available_date
            && self.lowest_rent.date == other.lowest_rent.date && self.lowest_rent.term_length
            == other.lowest_rent.term_length && self.lowest_rent.price == other.lowest_rent.price) {
            return false;
        }
        if !rent_matches(&self.rent, &other.rent) {
            return false;
        }
        if self.promotions.len() != other.promotions.len() {
            assert(self.v().promotions.len() != other.v().promotions.len());
            return false;
        }
        let mut i: usize = 0;
        while i < self.promotions.len()
            invariant
                i <= self.promotions.len(),
                self.promotions.len() == other.promotions.len(),
                forall|j: int|
                    0 <= j < i ==> (#[trigger] self.promotions@[j]).v() == other.promotions@[j].v(),
            decreases self.promotions.len() - i,
        {
            if !promotion_matches(&self.promotions[i], &other.promotions[i]) {
                assert(self.v().promotions[i as int] != other.v().promotions[i as int]);
                return false;
            }
            i = i + 1;
        }
        if self.extra.len() != other.extra.len() {
            assert(self.v().extra.len() != other.v().extra.len());
            return false;
        }
        let mut k: usize = 0;
        while k < self.extra.len()
            invariant
                k <= self.extra.len(),
                self.extra.len() == other.extra.len(),
                forall|j: int|
                    0 <= j < k ==> (#[trigger] self.extra@[j]).0@ == other.extra@[j].0@
                        && self.extra@[j].1@ == other.extra@[j].1@,
            decreases self.extra.len() - k,
        {
            if !(self.extra[k].0 == other.extra[k].0 && self.extra[k].1 == other.extra[k].1) {
                assert(self.v().extra[k as int] != other.v().extra[k as int]);
                return false;
            }
            k = k + 1;
        }
        assert(self.v() =~= other.v()) by {
            assert(self.v().lowest_rent =~= other.v().lowest_rent);
            assert(self.v().floor_plan =~= other.v().floor_plan);
            assert(promotions_view(self.promotions@) =~= promotions_view(other.promotions@));
            assert(extra_view(self.extra@) =~= extra_view(other.extra@));
        };
        true
    }

    /// Whether the unit is worth notifying about: not furnished, and
    /// exactly two bedrooms.
    pub fn meets_qualifications(&self) -> (r: bool)
        ensures
            r == spec_meets_qualifications(self.v()),
    {
        match self.furnished {
            Furnished::Furnished => false,
            _ => self.bedroom == 2,
        }
    }
}

/// A unit qualifies when it is not a designated furnished unit and has
/// exactly two bedrooms.
pub open spec fn spec_meets_qualifications(a: ApiApartmentV) -> bool {
    a.furnished != Furnished::Furnished && a.bedroom == 2
}

// ---------------------------------------------------------------------
// One-line display form.
// ---------------------------------------------------------------------

pub open spec fn furnished_suffix(f: Furnished) -> Seq<char> {
    if f == Furnished::Furnished {
        ", furnished"@
    } else {
        Seq::empty()
    }
}

pub open spec fn tour_suffix(v: Option<VirtualTourV>) -> Seq<char> {
    match v {
        Option::Some(t) => if t.is_actual_unit {
            ", virtual tour"@
        } else {
            Seq::empty()
        },
        Option::None => Seq::empty(),
    }
}

/// The one-line display form of a payload, as in
/// `"Apartment 731 (2 bed 2 bath, $4260, 1268sq/ft, avail. Oct 21 2022, plan f-b4v)"`.
pub open spec fn api_apartment_display(a: ApiApartmentV) -> Seq<char> {
    "Apartment "@ + a.number + " ("@ + dec_str(a.bedroom as nat) + " bed "@ + dec_str(
        a.bathroom as nat,
    ) + " bath, $"@ + dec_str(a.lowest_rent.price.price as nat) + ", "@ + dec_str(
        a.square_feet as nat,
    ) + "sq/ft, avail. "@ + ava_date_display(a.available_date) + ", plan "@ + a.floor_plan.name
        + furnished_suffix(a.furnished) + tour_suffix(a.virtual_tour) + ")"@
}

impl ApiApartment {
    /// Renders the one-line display form.
    pub fn display_line(&self) -> (r: String)
        requires
            self.v().wf(),
        ensures
            r@ == api_apartment_display(self.v()),
    {
        let mut r = String::new();
        r.append("Apartment ");
        r.append(self.number.as_str());
        r.append(" (");
        let bed = u64_to_string(self.bedroom as u64);
        r.append(bed.as_str());
        r.append(" bed ");
        let bath = u64_to_string(self.bathroom as u64);
        r.append(bath.as_str());
        r.append(" bath, $");
        let price = u64_to_string(self.lowest_rent.price.price);
        r.append(price.as_str());
        r.append(", ");
        let sqft = u64_to_string(self.square_feet);
        r.append(sqft.as_str());
        r.append("sq/ft, avail. ");
        let date = self.available_date.format_short();
        r.append(date.as_str());
        r.append(", plan ");
        r.append(self.floor_plan.name.as_str());
        match self.furnished {
            Furnished::Furnished => r.append(", furnished"),
            _ => (),
        }
        match &self.virtual_tour {
            Option::Some(t) => if t.is_actual_unit {
                r.append(", virtual tour");
            },
            Option::None => (),
        }
        r.append(")");
        assert(r@ =~= api_apartment_display(self.v()));
        r
    }
}

// ---------------------------------------------------------------------
// Serialized textual form: one `name: value` line per field, one line
// per collection element, used as the input of the textual diff between
// an old and a new payload.
// ---------------------------------------------------------------------

pub open spec fn bool_str(b: bool) -> Seq<char> {
    if b {
        "true"@
    } else {
        "false"@
    }
}

pub open spec fn furnished_name(f: Furnished) -> Seq<char> {
    match f {
        Furnished::Unfurnished => "unfurnished"@,
        Furnished::OnDemand => "on_demand"@,
        Furnished::Furnished => "furnished"@,
    }
}

pub open spec fn tour_str(v: Option<VirtualTourV>) -> Seq<char> {
    match v {
        Option::Some(t) => "space="@ + t.space + " actual_unit="@ + bool_str(t.is_actual_unit),
        Option::None => "none"@,
    }
}

pub open spec fn price_entry_str(e: (u64, Price)) -> Seq<char> {
    dec_str(e.0 as nat) + "="@ + dec_str(e.1.price as nat) + "/"@ + dec_str(
        e.1.net_effective_price as nat,
    )
}

pub open spec fn price_entry_seqs(s: Seq<(u64, Price)>) -> Seq<Seq<char>> {
    s.map_values(|e: (u64, Price)| price_entry_str(e))
}

pub open spec fn price_entries_str(s: Seq<(u64, Price)>) -> Seq<char> {
    join_with(price_entry_seqs(s), ", "@)
}

pub open spec fn movein_line(p: PricesForMoveInDateV) -> Seq<char> {
    "prices "@ + ava_date_display(p.move_in_date) + ": "@ + price_entries_str(p.prices_per_terms)
        + seq!['\n']
}

pub open spec fn movein_lines(s: Seq<PricesForMoveInDateV>) -> Seq<char>
    decreases s.len(),
{
    if s.len() == 0 {
        Seq::empty()
    } else {
        movein_lines(s.drop_last()) + movein_line(s.last())
    }
}

pub open spec fn term_seqs(s: Seq<u64>) -> Seq<Seq<char>> {
    s.map_values(|t: u64| dec_str(t as nat))
}

pub open spec fn terms_str(s: Seq<u64>) -> Seq<char> {
    join_with(term_seqs(s), ","@)
}

pub open spec fn end_date_str(e: Option<AvaDate>) -> Seq<char> {
    match e {
        Option::Some(d) => ava_date_display(d),
        Option::None => "none"@,
    }
}

pub open spec fn promotion_line(p: ApplicablePromotionV) -> Seq<char> {
    "promotion: id="@ + p.promotion_id + " start="@ + ava_date_display(p.start_date) + " end="@
        + end_date_str(p.end_date) + " terms="@ + terms_str(p.terms) + seq!['\n']
}

pub open spec fn promotion_lines(s: Seq<ApplicablePromotionV>) -> Seq<char>
    decreases s.len(),
{
    if s.len() == 0 {
        Seq::empty()
    } else {
        promotion_lines(s.drop_last()) + promotion_line(s.last())
    }
}

pub open spec fn extra_line(e: (Seq<char>, Seq<char>)) -> Seq<char> {
    "extra "@ + e.0 + ": "@ + e.1 + seq!['\n']
}

pub open spec fn extra_lines(s: Seq<(Seq<char>, Seq<char>)>) -> Seq<char>
    decreases s.len(),
{
    if s.len() == 0 {
        Seq::empty()
    } else {
        extra_lines(s.drop_last()) + extra_line(s.last())
    }
}

/// The leading `name: value` lines, through the floor plan and tour.
pub open spec fn serialized_head(a: ApiApartmentV) -> Seq<char> {
    "unit_id: "@ + a.unit_id + seq!['\n'] + "number: "@ + a.number + seq!['\n'] + "furnished: "@
        + furnished_name(a.furnished) + seq!['\n'] + "floor_plan: "@ + a.floor_plan.name
        + seq!['\n'] + "floor_plan_low_resolution: "@ + a.floor_plan.low_resolution + seq!['\n']
        + "floor_plan_high_resolution: "@ + a.floor_plan.high_resolution + seq!['\n']
        + "virtual_tour: "@ + tour_str(a.virtual_tour) + seq!['\n']
}

/// The numeric and date `name: value` lines.
pub open spec fn serialized_mid(a: ApiApartmentV) -> Seq<char> {
    "bedroom: "@ + dec_str(a.bedroom as nat) + seq!['\n'] + "bathroom: "@ + dec_str(
        a.bathroom as nat,
    ) + seq!['\n'] + "square_feet: "@ + dec_str(a.square_feet as nat) + seq!['\n']
        + "available_date: "@ + ava_date_display(a.available_date) + seq!['\n']
        + "applied_discount: "@ + dec_str(a.rent.applied_discount as nat) + seq!['\n']
}

/// The lowest-rent `name: value` lines.
pub open spec fn serialized_lowest(a: ApiApartmentV) -> Seq<char> {
    "lowest_rent_date: "@ + ava_date_display(a.lowest_rent.date) + seq!['\n'] + "term_length: "@
        + a.lowest_rent.term_length + seq!['\n'] + "price: "@ + dec_str(
        a.lowest_rent.price.price as nat,
    ) + seq!['\n'] + "net_effective_price: "@ + dec_str(a.lowest_rent.price.net_effective_price as nat)
        + seq!['\n']
}

/// The serialized textual form of a payload: every field on its own
/// `name: value` line, collections one line per element.
pub open spec fn api_apartment_serialized(a: ApiApartmentV) -> Seq<char> {
    serialized_head(a) + serialized_mid(a) + movein_lines(a.rent.prices_per_movein_date)
        + serialized_lowest(a) + promotion_lines(a.promotions) + extra_lines(a.extra)
}

fn bool_render(b: bool) -> (r: &'static str)
    ensures
        r@ == bool_str(b),
{
    if b {
        "true"
    } else {
        "false"
    }
}

fn price_entries_render(v: &Vec<(u64, Price)>) -> (r: String)
    ensures
        r@ == price_entries_str(v@),
{
    let mut parts: Vec<String> = Vec::new();
    let mut i: usize = 0;
    while i < v.len()
        invariant
            i <= v.len(),
            parts.deep_view() == price_entry_seqs(v@.take(i as int)),
        decreases v.len() - i,
    {
        let (t, p) = v[i];
        let mut e = u64_to_string(t);
        e.append("=");
        let ps = u64_to_string(p.price);
        e.append(ps.as_str());
        e.append("/");
        let ns = u64_to_string(p.net_effective_price);
        e.append(ns.as_str());
        assert(e@ == price_entry_str(v@[i as int]));
        parts.push(e);
        proof {
            let prev = price_entry_seqs(v@.take(i as int));
            assert(parts.deep_view() =~= prev.push(price_entry_str(v@[i as int])));
            assert(price_entry_seqs(v@.take(i + 1)) =~= prev.push(price_entry_str(v@[i as int])));
        }
        i = i + 1;
    }
    assert(v@.take(v.len() as int) =~= v@);
    join_strings(&parts, ", ")
}

fn terms_render(v: &Vec<u64>) -> (r: String)
    ensures
        r@ == terms_str(v@),
{
    let mut parts: Vec<String> = Vec::new();
    let mut i: usize = 0;
    while i < v.len()
        invariant
            i <= v.len(),
            parts.deep_view() == term_seqs(v@.take(i as int)),
        decreases v.len() - i,
    {
        let e = u64_to_string(v[i]);
        assert(e@ == dec_str(v@[i as int] as nat));
        parts.push(e);
        proof {
            let prev = term_seqs(v@.take(i as int));
            assert(parts.deep_view() =~= prev.push(dec_str(v@[i as int] as nat)));
            assert(term_seqs(v@.take(i + 1)) =~= prev.push(dec_str(v@[i as int] as nat)));
        }
        i = i + 1;
    }
    assert(v@.take(v.len() as int) =~= v@);
    join_strings(&parts, ",")
}

proof fn lemma_movein_lines_push(s: Seq<PricesForMoveInDateV>, x: PricesForMoveInDateV)
    ensures
        movein_lines(s.push(x)) == movein_lines(s) + movein_line(x),
{
    assert(s.push(x).drop_last() =~= s);
    assert(s.push(x).last() == x);
}

fn movein_lines_render(v: &Vec<PricesForMoveInDate>) -> (r: String)
    requires
        forall|i: int| 0 <= i < v@.len() ==> (#[trigger] v@[i]).move_in_date.wf(),
    ensures
        r@ == movein_lines(movein_view(v@)),
{
    let mut r = String::new();
    let mut i: usize = 0;
    while i < v.len()
        invariant
            i <= v.len(),
            forall|j: int| 0 <= j < v@.len() ==> (#[trigger] v@[j]).move_in_date.wf(),
            r@ == movein_lines(movein_view(v@.take(i as int))),
        decreases v.len() - i,
    {
        let p = &v[i];
        r.append("prices ");
        let date = p.move_in_date.format_short();
        r.append(date.as_str());
        r.append(": ");
        let entries = price_entries_render(&p.prices_per_terms);
        r.append(entries.as_str());
        push_char(&mut r, '\n');
        proof {
            lemma_movein_lines_push(movein_view(v@.take(i as int)), v@[i as int].v());
            assert(movein_view(v@.take(i + 1)) =~= movein_view(v@.take(i as int)).push(
                v@[i as int].v(),
            ));
            assert(r@ =~= movein_lines(movein_view(v@.take(i + 1))));
        }
        i = i + 1;
    }
    assert(v@.take(v.len() as int) =~= v@);
    r
}

proof fn lemma_promotion_lines_push(s: Seq<ApplicablePromotionV>, x: ApplicablePromotionV)
    ensures
        promotion_lines(s.push(x)) == promotion_lines(s) + promotion_line(x),
{
    assert(s.push(x).drop_last() =~= s);
    assert(s.push(x).last() == x);
}

fn promotion_lines_render(v: &Vec<ApplicablePromotion>) -> (r: String)
    requires
        forall|i: int| 0 <= i < v@.len() ==> promotion_dates_wf((#[trigger] v@[i]).v()),
    ensures
        r@ == promotion_lines(promotions_view(v@)),
{
    let mut r = String::new();
    let mut i: usize = 0;
    while i < v.len()
        invariant
            i <= v.len(),
            forall|j: int| 0 <= j < v@.len() ==> promotion_dates_wf((#[trigger] v@[j]).v()),
            r@ == promotion_lines(promotions_view(v@.take(i as int))),
        decreases v.len() - i,
    {
        let p = &v[i];
        r.append("promotion: id=");
        r.append(p.promotion_id.as_str());
        r.append(" start=");
        let start = p.start_date.format_short();
        r.append(start.as_str());
        r.append(" end=");
        match &p.end_date {
            Option::Some(d) => {
                let end = d.format_short();
                r.append(end.as_str());
            },
            Option::None => r.append("none"),
        }
        r.append(" terms=");
        let terms = terms_render(&p.terms);
        r.append(terms.as_str());
        push_char(&mut r, '\n');
        proof {
            lemma_promotion_lines_push(promotions_view(v@.take(i as int)), v@[i as int].v());
            assert(promotions_view(v@.take(i + 1)) =~= promotions_view(v@.take(i as int)).push(
                v@[i as int].v(),
            ));
            assert(r@ =~= promotion_lines(promotions_view(v@.take(i + 1))));
        }
        i = i + 1;
    }
    assert(v@.take(v.len() as int) =~= v@);
    r
}

proof fn lemma_extra_lines_push(s: Seq<(Seq<char>, Seq<char>)>, x: (Seq<char>, Seq<char>))
    ensures
        extra_lines(s.push(x)) == extra_lines(s) + extra_line(x),
{
    assert(s.push(x).drop_last() =~= s);
    assert(s.push(x).last() == x);
}

fn extra_lines_render(v: &Vec<(String, String)>) -> (r: String)
    ensures
        r@ == extra_lines(extra_view(v@)),
{
    let mut r = String::new();
    let mut i: usize = 0;
    while i < v.len()
        invariant
            i <= v.len(),
            r@ == extra_lines(extra_view(v@.take(i as int))),
        decreases v.len() - i,
    {
        r.append("extra ");
        r.append(v[i].0.as_str());
        r.append(": ");
        r.append(v[i].1.as_str());
        push_char(&mut r, '\n');
        proof {
            let x = (v@[i as int].0@, v@[i as int].1@);
            lemma_extra_lines_push(extra_view(v@.take(i as int)), x);
            assert(extra_view(v@.take(i + 1)) =~= extra_view(v@.take(i as int)).push(x));
            assert(r@ =~= extra_lines(extra_view(v@.take(i + 1))));
        }
        i = i + 1;
    }
    assert(v@.take(v.len() as int) =~= v@);
    r
}

impl ApiApartment {
    fn serialize_head(&self) -> (r: String)
        ensures
            r@ == serialized_head(self.v()),
    {
        let mut r = String::new();
        r.append("unit_id: ");
        r.append(self.unit_id.as_str());
        push_char(&mut r, '\n');
        r.append("number: ");
        r.append(self.number.as_str());
        push_char(&mut r, '\n');
        r.append("furnished: ");
        match self.furnished {
            Furnished::Unfurnished => r.append("unfurnished"),
            Furnished::OnDemand => r.append("on_demand"),
            Furnished::Furnished => r.append("furnished"),
        }
        push_char(&mut r, '\n');
        r.append("floor_plan: ");
        r.append(self.floor_plan.name.as_str());
        push_char(&mut r, '\n');
        r.append("floor_plan_low_resolution: ");
        r.append(self.floor_plan.low_resolution.as_str());
        push_char(&mut r, '\n');
        r.append("floor_plan_high_resolution: ");
        r.append(self.floor_plan.high_resolution.as_str());
        push_char(&mut r, '\n');
        r.append("virtual_tour: ");
        match &self.virtual_tour {
            Option::Some(t) => {
                r.append("space=");
                r.append(t.space.as_str());
                r.append(" actual_unit=");
                r.append(bool_render(t.is_actual_unit));
            },
            Option::None => r.append("none"),
        }
        push_char(&mut r, '\n');
        assert(r@ =~= serialized_head(self.v()));
        r
    }

    fn serialize_mid(&self) -> (r: String)
        requires
            self.available_date.wf(),
        ensures
            r@ == serialized_mid(self.v()),
    {
        let mut r = String::new();
        r.append("bedroom: ");
        let bed = u64_to_string(self.bedroom as u64);
        r.append(bed.as_str());
        push_char(&mut r, '\n');
        r.append("bathroom: ");
        let bath = u64_to_string(self.bathroom as u64);
        r.append(bath.as_str());
        push_char(&mut r, '\n');
        r.append("square_feet: ");
        let sqft = u64_to_string(self.square_feet);
        r.append(sqft.as_str());
        push_char(&mut r, '\n');
        r.append("available_date: ");
        let avail = self.available_date.format_short();
        r.append(avail.as_str());
        push_char(&mut r, '\n');
        r.append("applied_discount: ");
        let disc = u64_to_string(self.rent.applied_discount);
        r.append(disc.as_str());
        push_char(&mut r, '\n');
        assert(r@ =~= serialized_mid(self.v()));
        r
    }

    fn serialize_lowest(&self) -> (r: String)
        requires
            self.lowest_rent.date.wf(),
        ensures
            r@ == serialized_lowest(self.v()),
    {
        let mut r = String::new();
        r.append("lowest_rent_date: ");
        let lrd = self.lowest_rent.date.format_short();
        r.append(lrd.as_str());
        push_char(&mut r, '\n');
        r.append("term_length: ");
        r.append(self.lowest_rent.term_length.as_str());
        push_char(&mut r, '\n');
        r.append("price: ");
        let lp = u64_to_string(self.lowest_rent.price.price);
        r.append(lp.as_str());
        push_char(&mut r, '\n');
        r.append("net_effective_price: ");
        let np = u64_to_string(self.lowest_rent.price.net_effective_price);
        r.append(np.as_str());
        push_char(&mut r, '\n');
        assert(r@ =~= serialized_lowest(self.v()));
        r
    }

    /// Renders the serialized textual form used for diffing.
    pub fn serialize_lines(&self) -> (r: String)
        requires
            self.v().wf(),
        ensures
            r@ == api_apartment_serialized(self.v()),
    {
        proof {
            assert forall|i: int|
                0 <= i < self.rent.prices_per_movein_date@.len() implies (
            #[trigger] self.rent.prices_per_movein_date@[i]).move_in_date.wf() by {
                assert(self.v().rent.prices_per_movein_date[i]
                    == self.rent.prices_per_movein_date@[i].v());
            };
            assert forall|i: int|
                0 <= i < self.promotions@.len() implies promotion_dates_wf(
                (#[trigger] self.promotions@[i]).v(),
            ) by {
                assert(self.v().promotions[i] == self.promotions@[i].v());
            };
        }
        let mut r = self.serialize_head();
        let mid = self.serialize_mid();
        r.append(mid.as_str());
        let moveins = movein_lines_render(&self.rent.prices_per_movein_date);
        r.append(moveins.as_str());
        let lowest = self.serialize_lowest();
        r.append(lowest.as_str());
        let promos = promotion_lines_render(&self.promotions);
        r.append(promos.as_str());
        let extras = extra_lines_render(&self.extra);
        r.append(extras.as_str());
        assert(r@ =~= api_apartment_serialized(self.v()));
        r
    }
}

// ---------------------------------------------------------------------
// Lifecycle wrapper: a payload plus when it was first seen and, once it
// disappears, when it was unlisted.
// ---------------------------------------------------------------------

/// The persisted state for one unit: its latest payload, the timestamp
/// (seconds) when it was first seen, and the timestamp when it stopped
/// being listed, if it has.
#[derive(Debug)]
pub struct Apartment {
    pub inner: ApiApartment,
    pub listed: u64,
    pub unlisted: Option<u64>,
}

#[verifier::ext_equal]
pub struct ApartmentV {
    pub inner: ApiApartmentV,
    pub listed: u64,
    pub unlisted: Option<u64>,
}

impl ApartmentV {
    /// A unit never unlists before it was listed.
    pub open spec fn wf(self) -> bool {
        self.inner.wf() && match self.unlisted {
            Option::Some(u) => self.listed <= u,
            Option::None => true,
        }
    }

    /// The stable identifier of the unit.
    pub open spec fn sid(self) -> Seq<char> {
        self.inner.unit_id
    }
}

pub open spec fn apartments_view(s: Seq<Apartment>) -> Seq<ApartmentV> {
    s.map_values(|a: Apartment| a.v())
}

/// The display form of a tracked unit: its payload's one-line form,
/// prefixed for an unlisted unit with how long it was tracked.
pub open spec fn apartment_display(ap: ApartmentV) -> Seq<char> {
    match ap.unlisted {
        Option::Some(u) => "Unlisted after "@ + pretty_duration_str(
            (((u - ap.listed) as int) / 60) as nat,
        ) + ": "@ + api_apartment_display(ap.inner),
        Option::None => api_apartment_display(ap.inner),
    }
}

impl Apartment {
    pub open spec fn v(self) -> ApartmentV {
        ApartmentV { inner: self.inner.v(), listed: self.listed, unlisted: self.unlisted }
    }

    /// The stable identifier of the unit.
    pub fn id(&self) -> (r: &str)
        ensures
            r@ == self.v().sid(),
    {
        self.inner.unit_id.as_str()
    }

    /// Replaces the payload, keeping the lifecycle metadata.
    pub fn update_inner(&mut self, new_inner: ApiApartment)
        ensures
            final(self).v() == (ApartmentV {
                inner: new_inner.v(),
                listed: old(self).listed,
                unlisted: old(self).unlisted,
            }),
    {
        self.inner = new_inner;
    }

    /// A copy with the same view.
    pub fn duplicate(&self) -> (r: Apartment)
        ensures
            r.v() == self.v(),
    {
        Apartment { inner: self.inner.duplicate(), listed: self.listed, unlisted: self.unlisted }
    }

    /// Renders the display form of the unit.
    pub fn display_line(&self) -> (r: String)
        requires
            self.v().wf(),
        ensures
            r@ == apartment_display(self.v()),
    {
        match self.unlisted {
            Option::Some(u) => {
                let mins = (u - self.listed) / 60;
                let pd = PrettyDuration(mins);
                let mut r = String::new();
                r.append("Unlisted after ");
                let dur = pd.render();
                r.append(dur.as_str());
                r.append(": ");
                let line = self.inner.display_line();
                r.append(line.as_str());
                assert(r@ =~= apartment_display(self.v()));
                r
            },
            Option::None => self.inner.display_line(),
        }
    }
}

/// One fetched snapshot of the whole listing page: the payloads in page
/// order, each wrapped with the timestamp the snapshot was taken at.
#[derive(Debug)]
pub struct ApartmentData {
    pub apartments: Vec<Apartment>,
}

impl ApartmentData {
    /// Wraps freshly parsed payloads, stamping every unit with the one
    /// `listed` timestamp of this fetch.
    pub fn from_units(units: &Vec<ApiApartment>, listed: u64) -> (r: ApartmentData)
        ensures
            r.apartments@.len() == units@.len(),
            forall|i: int|
                0 <= i < units@.len() ==> (#[trigger] r.apartments@[i]).v() == (ApartmentV {
                    inner: units@[i].v(),
                    listed,
                    unlisted: Option::None,
                }),
    {
        let mut apartments: Vec<Apartment> = Vec::new();
        let mut i: usize = 0;
        while i < units.len()
            invariant
                i <= units.len(),
                apartments@.len() == i,
                forall|j: int|
                    0 <= j < i ==> (#[trigger] apartments@[j]).v() == (ApartmentV {
                        inner: units@[j].v(),
                        listed,
                        unlisted: Option::None,
                    }),
            decreases units.len() - i,
        {
            let inner = units[i].duplicate();
            apartments.push(Apartment { inner, listed, unlisted: Option::None });
            i = i + 1;
        }
        ApartmentData { apartments }
    }
}

/// A retained snapshot of a payload's serialized form at one observation
/// time.
#[derive(Debug)]
pub struct ApartmentSnapshot {
    pub inner: String,
    pub observed: u64,
}

} // verus!
