use ava_apartment_finder::api::ApiApartment;
use ava_apartment_finder::api::ApplicablePromotion;
use ava_apartment_finder::api::AvaDate;
use ava_apartment_finder::api::FloorPlan;
use ava_apartment_finder::api::Furnished;
use ava_apartment_finder::api::LowestRent;
use ava_apartment_finder::api::Price;
use ava_apartment_finder::api::PricesForMoveInDate;
use ava_apartment_finder::api::Rent;
use ava_apartment_finder::strutil::u64_to_string;
use ava_apartment_finder::strutil::u64_to_string_pad4;

fn date(year: u64, month: u64, day: u64) -> AvaDate {
    AvaDate { year, month, day, hour: 4, minute: 0, second: 0 }
}

fn unit_731() -> ApiApartment {
    ApiApartment {
        unit_id: "AVB-WA026-001-731".to_owned(),
        number: "731".to_string(),
        furnished: Furnished::Unfurnished,
        floor_plan: FloorPlan {
            name: "f-b4v".to_string(),
            low_resolution: "/floorplans/wa026/wa026-b4v-1268sf(1).jpg/128/96".to_string(),
            high_resolution: "/floorplans/wa026/wa026-b4v-1268sf(1).jpg/1024/768".to_string(),
        },
        virtual_tour: None,
        bedroom: 2,
        bathroom: 2,
        square_feet: 1268,
        available_date: date(2022, 10, 21),
        rent: Rent {
            applied_discount: 0,
            prices_per_movein_date: vec![PricesForMoveInDate {
                move_in_date: date(2022, 10, 21),
                prices_per_terms: vec![(2, Price { price: 4720, net_effective_price: 4720 })],
            }],
        },
        lowest_rent: LowestRent {
            date: date(2022, 10, 21),
            term_length: "8".to_string(),
            price: Price { price: 4260, net_effective_price: 4260 },
        },
        promotions: vec![ApplicablePromotion {
            promotion_id: "106246".to_string(),
            start_date: date(2022, 10, 5),
            end_date: Some(date(2022, 11, 30)),
            terms: vec![12],
        }],
        extra: vec![],
    }
}

#[test]
fn test_api_apartment_display() {
    assert_eq!(
        &unit_731().display_line(),
        "Apartment 731 (2 bed 2 bath, $4260, 1268sq/ft, avail. Oct 21 2022, plan f-b4v)"
    );
}

#[test]
fn test_date_display_pads_single_digit_day() {
    assert_eq!(&date(2022, 10, 5).format_short(), "Oct  5 2022");
    assert_eq!(&date(2023, 1, 15).format_short(), "Jan 15 2023");
}

#[test]
fn test_display_furnished_and_tour_suffixes() {
    let mut unit = unit_731();
    unit.furnished = Furnished::Furnished;
    unit.virtual_tour = Some(ava_apartment_finder::api::VirtualTour {
        space: "everywhere".to_string(),
        is_actual_unit: true,
    });
    assert_eq!(
        &unit.display_line(),
        "Apartment 731 (2 bed 2 bath, $4260, 1268sq/ft, avail. Oct 21 2022, plan f-b4v, \
         furnished, virtual tour)"
    );
}

#[test]
fn test_meets_qualifications() {
    let mut unit = unit_731();
    assert!(unit.meets_qualifications());
    unit.furnished = Furnished::Furnished;
    assert!(!unit.meets_qualifications());
    unit.furnished = Furnished::OnDemand;
    unit.bedroom = 1;
    assert!(!unit.meets_qualifications());
}

#[test]
fn test_same_as_is_structural() {
    let unit = unit_731();
    let copy = unit.duplicate();
    assert!(unit.same_as(&copy));
    let mut cheaper = unit.duplicate();
    cheaper.lowest_rent.price.price = 4300;
    assert!(!unit.same_as(&cheaper));
    let mut extra = unit.duplicate();
    extra.extra.push(("parking".to_string(), "included".to_string()));
    assert!(!unit.same_as(&extra));
}

#[test]
fn test_serialize_lines_has_field_lines() {
    let text = unit_731().serialize_lines();
    assert!(text.contains("price: 4260\n"));
    assert!(text.contains("unit_id: AVB-WA026-001-731\n"));
    assert!(text.contains("available_date: Oct 21 2022\n"));
    assert!(text.contains("prices Oct 21 2022: 2=4720/4720\n"));
    assert!(text.contains("promotion: id=106246 start=Oct  5 2022 end=Nov 30 2022 terms=12\n"));
}

#[test]
fn test_u64_to_string() {
    assert_eq!(&u64_to_string(0), "0");
    assert_eq!(&u64_to_string(7), "7");
    assert_eq!(&u64_to_string(1234567), "1234567");
}

#[test]
fn test_u64_to_string_pad4() {
    assert_eq!(&u64_to_string_pad4(7), "7   ");
    assert_eq!(&u64_to_string_pad4(123), "123 ");
    assert_eq!(&u64_to_string_pad4(12345), "12345");
}
