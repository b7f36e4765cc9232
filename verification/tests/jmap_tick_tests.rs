use ava_apartment_finder::api::ApartmentData;
use ava_apartment_finder::api::ApiApartment;
use ava_apartment_finder::api::AvaDate;
use ava_apartment_finder::api::FloorPlan;
use ava_apartment_finder::api::Furnished;
use ava_apartment_finder::api::LowestRent;
use ava_apartment_finder::api::Price;
use ava_apartment_finder::api::Rent;
use ava_apartment_finder::jmap::Email;
use ava_apartment_finder::jmap::EmailAddress;
use ava_apartment_finder::jmap::Identity;
use ava_apartment_finder::jmap::JmapError;
use ava_apartment_finder::jmap::Mailbox;
use ava_apartment_finder::jmap::MailboxRole;
use ava_apartment_finder::jmap::SendingIdentity;
use ava_apartment_finder::reconcile::App;
use ava_apartment_finder::tick::added_email;
use ava_apartment_finder::tick::removed_email;
use ava_apartment_finder::tick::tick_emails;
use ava_apartment_finder::tick::to_bullet_list;

fn listing(id: &str, price: u64) -> ApiApartment {
    ApiApartment {
        unit_id: id.to_string(),
        number: id.to_string(),
        furnished: Furnished::Unfurnished,
        floor_plan: FloorPlan {
            name: "plan".to_string(),
            low_resolution: "low".to_string(),
            high_resolution: "high".to_string(),
        },
        virtual_tour: None,
        bedroom: 2,
        bathroom: 1,
        square_feet: 800,
        available_date: AvaDate { year: 2022, month: 10, day: 21, hour: 4, minute: 0, second: 0 },
        rent: Rent { applied_discount: 0, prices_per_movein_date: vec![] },
        lowest_rent: LowestRent {
            date: AvaDate { year: 2022, month: 10, day: 21, hour: 4, minute: 0, second: 0 },
            term_length: "8".to_string(),
            price: Price { price, net_effective_price: price },
        },
        promotions: vec![],
        extra: vec![],
    }
}

fn recipient() -> EmailAddress {
    EmailAddress::new("Resident", "resident@example.com")
}

#[test]
fn test_rfc_message_uses_crlf_throughout() {
    let email = Email {
        to: EmailAddress::new("Ada", "ada@example.com"),
        subject: "Hi".to_string(),
        body: "line1\nline2".to_string(),
    };
    let from = EmailAddress::new("Bot", "bot@example.com");
    assert_eq!(
        &email.rfc_message(&from),
        "To: Ada <ada@example.com>\r\nFrom: Bot <bot@example.com>\r\nSubject: Hi\r\n\r\n\
         line1\r\nline2\r\n"
    );
}

#[test]
fn test_sending_identity_picks_last_inbox_and_matching_identity() {
    let from = EmailAddress::new("Bot", "bot@example.com");
    let mailboxes = vec![
        Mailbox { id: "mb0".to_string(), role: MailboxRole::Other },
        Mailbox { id: "mb1".to_string(), role: MailboxRole::Inbox },
        Mailbox { id: "mb2".to_string(), role: MailboxRole::Inbox },
    ];
    let identities = vec![
        Identity {
            id: Some("id0".to_string()),
            name: Some("Someone else".to_string()),
            email: Some("other@example.com".to_string()),
        },
        Identity {
            id: Some("id1".to_string()),
            name: Some("Bot".to_string()),
            email: Some("bot@example.com".to_string()),
        },
        Identity {
            id: Some("id2".to_string()),
            name: Some("Bot".to_string()),
            email: Some("bot@example.com".to_string()),
        },
    ];
    let identity = SendingIdentity::new(from, &mailboxes, &identities).unwrap();
    assert_eq!(&identity.mailbox_id, "mb2");
    assert_eq!(&identity.identity_id, "id2");
    assert_eq!(&identity.from.email, "bot@example.com");
}

#[test]
fn test_sending_identity_errors() {
    let from = || EmailAddress::new("Bot", "bot@example.com");
    let inbox = || vec![Mailbox { id: "mb".to_string(), role: MailboxRole::Inbox }];
    let err = SendingIdentity::new(from(), &vec![], &vec![]).unwrap_err();
    assert_eq!(err, JmapError::NoInbox);
    assert_eq!(err.describe(), "Unable to find Inbox ID");
    let err = SendingIdentity::new(from(), &inbox(), &vec![]).unwrap_err();
    assert_eq!(err, JmapError::NoIdentity);
    let unnamed = vec![Identity {
        id: None,
        name: Some("Bot".to_string()),
        email: Some("bot@example.com".to_string()),
    }];
    let err = SendingIdentity::new(from(), &inbox(), &unnamed).unwrap_err();
    assert_eq!(err, JmapError::IdentityMissingId);
}

#[test]
fn test_added_email_contents() {
    let email = added_email(&listing("731", 4260), &recipient());
    assert_eq!(&email.subject, "Apartment 731 listed, available Oct 21 2022");
    assert_eq!(
        &email.body,
        "Apartment 731 (2 bed 1 bath, $4260, 800sq/ft, avail. Oct 21 2022, plan plan)"
    );
    assert_eq!(&email.to.email, "resident@example.com");
}

#[test]
fn test_removed_email_reports_tracked_duration() {
    let mut app = App::default();
    app.compute_diff(&ApartmentData::from_units(&vec![listing("731", 4260)], 0), 0);
    // Three days and one minute later the unit is gone.
    let at = 3 * 86400 + 60;
    let diff = app.compute_diff(&ApartmentData::from_units(&vec![], at), at);
    let email = removed_email(&diff.removed[0], &recipient()).unwrap();
    assert_eq!(&email.subject, "Apartment 731 no longer available!");
    assert!(email.body.starts_with("Unlisted after 3 days 0 hrs 1 mins: Apartment 731 "));
    assert!(email.body.contains("\nTracked since: 0\n"));
    assert!(email.body.ends_with("\nTracked for: 3 days"));
}

#[test]
fn test_tick_emails_cover_added_then_removed() {
    let mut app = App::default();
    app.compute_diff(&ApartmentData::from_units(&vec![listing("A", 4260)], 10), 10);
    let diff = app.compute_diff(&ApartmentData::from_units(&vec![listing("B", 3900)], 20), 20);
    let emails = tick_emails(&diff, &recipient());
    assert_eq!(emails.len(), 2);
    assert_eq!(&emails[0].subject, "Apartment B listed, available Oct 21 2022");
    assert_eq!(&emails[1].subject, "Apartment A no longer available!");
}

#[test]
fn test_to_bullet_list() {
    let items = vec!["first".to_string(), "second".to_string()];
    assert_eq!(&to_bullet_list(&items), "• first\n• second");
    assert_eq!(&to_bullet_list(&vec![]), "");
}

#[test]
fn test_changed_apartment_render_shows_price_change() {
    let mut app = App::default();
    app.compute_diff(&ApartmentData::from_units(&vec![listing("A", 4260)], 10), 10);
    let diff = app.compute_diff(&ApartmentData::from_units(&vec![listing("A", 4300)], 20), 20);
    let rendered = diff.changed[0].render();
    assert!(rendered.starts_with("--- Apartment A (2 bed 1 bath, $4260, "));
    assert!(rendered.contains("\n+++ Apartment A (2 bed 1 bath, $4300, "));
    assert!(rendered.contains(" │-price: 4260\n"));
    assert!(rendered.contains(" │+price: 4300\n"));
    assert!(rendered.contains(" │ term_length: 8\n"));
}
