//! The pure half of one tick: composing the report lines and the
//! notification emails that a reconciliation's diff calls for. Fetching
//! the snapshot, sending the emails and persisting the store happen
//! outside the library.

use vstd::prelude::*;

use crate::api::Apartment;
use crate::api::ApartmentV;
use crate::api::ApiApartment;
use crate::api::ApiApartmentV;
use crate::api::api_apartment_display;
use crate::api::apartment_display;
use crate::api::ava_date_display;
use crate::jmap::Email;
use crate::jmap::EmailAddress;
use crate::jmap::EmailAddressV;
use crate::jmap::EmailV;
use crate::reconcile::ApartmentsDiff;
use crate::strutil::dec_str;
use crate::strutil::push_char;
use crate::strutil::u64_to_string;

verus! {

/// The items each prefixed with a bullet, one per line.
pub open spec fn bullet_list(items: Seq<Seq<char>>) -> Seq<char>
    decreases items.len(),
{
    if items.len() == 0 {
        Seq::empty()
    } else if items.len() == 1 {
        "• "@ + items[0]
    } else {
        bullet_list(items.drop_last()) + seq!['\n'] + "• "@ + items.last()
    }
}

proof fn lemma_bullet_list_step(items: Seq<Seq<char>>, i: int)
    requires
        1 <= i < items.len(),
    ensures
        bullet_list(items.take(i + 1)) == bullet_list(items.take(i)) + seq!['\n'] + "• "@
            + items[i],
{
    assert(items.take(i + 1).drop_last() =~= items.take(i));
    assert(items.take(i + 1).last() == items[i]);
}

/// Joins the given lines into a bulleted list.
pub fn to_bullet_list(items: &Vec<String>) -> (r: String)
    ensures
        r@ == bullet_list(items.deep_view()),
{
    let mut r = String::new();
    let mut i: usize = 0;
    while i < items.len()
        invariant
            i <= items.len(),
            items.deep_view().len() == items@.len(),
            r@ == bullet_list(items.deep_view().take(i as int)),
        decreases items.len() - i,
    {
        if i > 0 {
            push_char(&mut r, '\n');
        }
        r.append("• ");
        r.append(items[i].as_str());
        proof {
            assert(items.deep_view()[i as int] == items@[i as int]@);
            if i == 0 {
                assert(items.deep_view().take(1) =~= seq![items.deep_view()[0]]);
                assert(r@ =~= bullet_list(items.deep_view().take(1)));
            } else {
                lemma_bullet_list_step(items.deep_view(), i as int);
                assert(r@ =~= bullet_list(items.deep_view().take(i + 1)));
            }
        }
        i = i + 1;
    }
    assert(items.deep_view().take(items.len() as int) =~= items.deep_view());
    r
}

/// The email announcing a newly listed unit.
pub open spec fn added_email_spec(a: ApiApartmentV, to: EmailAddressV) -> EmailV {
    EmailV {
        to,
        subject: "Apartment "@ + a.number + " listed, available "@ + ava_date_display(
            a.available_date,
        ),
        body: api_apartment_display(a),
    }
}

/// The email announcing an unlisted unit: its display form, when it was
/// first seen (seconds), and for how many whole days it was tracked.
pub open spec fn removed_email_spec(u: ApartmentV, to: EmailAddressV, unlisted_at: u64) -> EmailV {
    EmailV {
        to,
        subject: "Apartment "@ + u.inner.number + " no longer available!"@,
        body: apartment_display(u) + "\nTracked since: "@ + dec_str(u.listed as nat)
            + "\nTracked for: "@ + dec_str((((unlisted_at - u.listed) as int) / 86400) as nat)
            + " days"@,
    }
}

/// Composes the notification for one newly listed unit.
pub fn added_email(unit: &ApiApartment, to: &EmailAddress) -> (r: Email)
    requires
        unit.v().wf(),
    ensures
        r.v() == added_email_spec(unit.v(), to.v()),
{
    let mut subject = String::from_str("Apartment ");
    subject.append(unit.number.as_str());
    subject.append(" listed, available ");
    let date = unit.available_date.format_short();
    subject.append(date.as_str());
    let body = unit.display_line();
    let r = Email { to: to.duplicate(), subject, body };
    assert(r.v() =~= added_email_spec(unit.v(), to.v()));
    r
}

/// Composes the notification for one unlisted unit; yields nothing for
/// a unit that carries no unlisting stamp.
pub fn removed_email(unit: &Apartment, to: &EmailAddress) -> (r: Option<Email>)
    requires
        unit.v().wf(),
    ensures
        match unit.v().unlisted {
            Option::Some(at) => r is Some && r->0.v() == removed_email_spec(
                unit.v(),
                to.v(),
                at,
            ),
            Option::None => r is None,
        },
{
    match unit.unlisted {
        Option::None => Option::None,
        Option::Some(at) => {
            let mut subject = String::from_str("Apartment ");
            subject.append(unit.inner.number.as_str());
            subject.append(" no longer available!");
            let mut body = unit.display_line();
            body.append("\nTracked since: ");
            let since = u64_to_string(unit.listed);
            body.append(since.as_str());
            body.append("\nTracked for: ");
            let days = u64_to_string((at - unit.listed) / 86400);
            body.append(days.as_str());
            body.append(" days");
            let r = Email { to: to.duplicate(), subject, body };
            assert(r.v() =~= removed_email_spec(unit.v(), to.v(), at));
            Option::Some(r)
        },
    }
}

/// The notifications one diff calls for: one email per added unit in
/// diff order, then one per removed unit that carries its unlisting
/// stamp, in diff order.
pub open spec fn added_emails_spec(added: Seq<ApiApartmentV>, to: EmailAddressV) -> Seq<EmailV>
    decreases added.len(),
{
    if added.len() == 0 {
        Seq::empty()
    } else {
        added_emails_spec(added.drop_last(), to) + seq![added_email_spec(added.last(), to)]
    }
}

pub open spec fn removed_emails_spec(removed: Seq<ApartmentV>, to: EmailAddressV) -> Seq<EmailV>
    decreases removed.len(),
{
    if removed.len() == 0 {
        Seq::empty()
    } else {
        removed_emails_spec(removed.drop_last(), to) + match removed.last().unlisted {
            Option::Some(at) => seq![removed_email_spec(removed.last(), to, at)],
            Option::None => Seq::<EmailV>::empty(),
        }
    }
}

pub open spec fn emails_view(s: Seq<Email>) -> Seq<EmailV> {
    s.map_values(|e: Email| e.v())
}

proof fn lemma_added_emails_step(added: Seq<ApiApartmentV>, to: EmailAddressV, i: int)
    requires
        0 <= i < added.len(),
    ensures
        added_emails_spec(added.take(i + 1), to) == added_emails_spec(added.take(i), to) + seq![
            added_email_spec(added[i], to),
        ],
{
    assert(added.take(i + 1).drop_last() =~= added.take(i));
    assert(added.take(i + 1).last() == added[i]);
}

proof fn lemma_removed_emails_step(removed: Seq<ApartmentV>, to: EmailAddressV, i: int)
    requires
        0 <= i < removed.len(),
    ensures
        removed_emails_spec(removed.take(i + 1), to) == removed_emails_spec(removed.take(i), to)
            + match removed[i].unlisted {
            Option::Some(at) => seq![removed_email_spec(removed[i], to, at)],
            Option::None => Seq::<EmailV>::empty(),
        },
{
    assert(removed.take(i + 1).drop_last() =~= removed.take(i));
    assert(removed.take(i + 1).last() == removed[i]);
}

/// Composes every notification email one diff calls for: the newly
/// listed units first, then the unlisted ones.
pub fn tick_emails(diff: &ApartmentsDiff, to: &EmailAddress) -> (r: Vec<Email>)
    requires
        forall|i: int| 0 <= i < diff.added@.len() ==> (#[trigger] diff.added@[i]).v().wf(),
        forall|i: int| 0 <= i < diff.removed@.len() ==> (#[trigger] diff.removed@[i]).v().wf(),
    ensures
        emails_view(r@) == added_emails_spec(
            crate::reconcile::payload_views(diff.added@),
            to.v(),
        ) + removed_emails_spec(crate::api::apartments_view(diff.removed@), to.v()),
{
    let ghost av = crate::reconcile::payload_views(diff.added@);
    let ghost rv = crate::api::apartments_view(diff.removed@);
    let mut r: Vec<Email> = Vec::new();
    let mut i: usize = 0;
    while i < diff.added.len()
        invariant
            i <= diff.added.len(),
            av == crate::reconcile::payload_views(diff.added@),
            av.len() == diff.added@.len(),
            forall|k: int| 0 <= k < diff.added@.len() ==> (#[trigger] diff.added@[k]).v().wf(),
            emails_view(r@) == added_emails_spec(av.take(i as int), to.v()),
        decreases diff.added.len() - i,
    {
        let e = added_email(&diff.added[i], to);
        r.push(e);
        proof {
            lemma_added_emails_step(av, to.v(), i as int);
            assert(av[i as int] == diff.added@[i as int].v());
            assert(emails_view(r@) =~= added_emails_spec(av.take(i + 1), to.v()));
        }
        i = i + 1;
    }
    assert(av.take(diff.added.len() as int) =~= av);
    let ghost head = added_emails_spec(av, to.v());
    let mut j: usize = 0;
    while j < diff.removed.len()
        invariant
            j <= diff.removed.len(),
            rv == crate::api::apartments_view(diff.removed@),
            rv.len() == diff.removed@.len(),
            forall|k: int| 0 <= k < diff.removed@.len() ==> (#[trigger] diff.removed@[k]).v().wf(),
            emails_view(r@) == head + removed_emails_spec(rv.take(j as int), to.v()),
        decreases diff.removed.len() - j,
    {
        let e = removed_email(&diff.removed[j], to);
        proof {
            lemma_removed_emails_step(rv, to.v(), j as int);
            assert(rv[j as int] == diff.removed@[j as int].v());
        }
        match e {
            Option::Some(e) => {
                let ghost prev_emails = emails_view(r@);
                let ghost ev = e.v();
                proof {
                    assert(rv[j as int].unlisted is Some);
                    let at = rv[j as int].unlisted->0;
                    assert(ev == removed_email_spec(rv[j as int], to.v(), at));
                }
                r.push(e);
                proof {
                    assert(emails_view(r@) =~= prev_emails.push(ev));
                    assert(removed_emails_spec(rv.take(j + 1), to.v()) == removed_emails_spec(
                        rv.take(j as int),
                        to.v(),
                    ) + seq![ev]);
                    assert(head + (removed_emails_spec(rv.take(j as int), to.v()) + seq![ev]) =~= (
                    head + removed_emails_spec(rv.take(j as int), to.v())).push(ev));
                    assert(emails_view(r@) == head + removed_emails_spec(rv.take(j + 1), to.v()));
                }
            },
            Option::None => {
                assert(rv[j as int].unlisted is None);
                assert(emails_view(r@) =~= head + removed_emails_spec(rv.take(j + 1), to.v()));
            },
        }
        j = j + 1;
    }
    assert(rv.take(diff.removed.len() as int) =~= rv);
    r
}

/// The display lines of the newly listed units, for the tick report.
pub fn added_display_lines(diff: &ApartmentsDiff) -> (r: Vec<String>)
    requires
        forall|i: int| 0 <= i < diff.added@.len() ==> (#[trigger] diff.added@[i]).v().wf(),
    ensures
        r@.len() == diff.added@.len(),
        forall|i: int|
            0 <= i < r@.len() ==> (#[trigger] r@[i])@ == api_apartment_display(
                diff.added@[i].v(),
            ),
{
    let mut r: Vec<String> = Vec::new();
    let mut i: usize = 0;
    while i < diff.added.len()
        invariant
            i <= diff.added.len(),
            r@.len() == i,
            forall|k: int| 0 <= k < diff.added@.len() ==> (#[trigger] diff.added@[k]).v().wf(),
            forall|k: int|
                0 <= k < i ==> (#[trigger] r@[k])@ == api_apartment_display(diff.added@[k].v()),
        decreases diff.added.len() - i,
    {
        let line = diff.added[i].display_line();
        r.push(line);
        i = i + 1;
    }
    r
}

/// The display lines of the unlisted units, for the tick report.
pub fn removed_display_lines(diff: &ApartmentsDiff) -> (r: Vec<String>)
    requires
        forall|i: int| 0 <= i < diff.removed@.len() ==> (#[trigger] diff.removed@[i]).v().wf(),
    ensures
        r@.len() == diff.removed@.len(),
        forall|i: int|
            0 <= i < r@.len() ==> (#[trigger] r@[i])@ == apartment_display(diff.removed@[i].v()),
{
    let mut r: Vec<String> = Vec::new();
    let mut i: usize = 0;
    while i < diff.removed.len()
        invariant
            i <= diff.removed.len(),
            r@.len() == i,
            forall|k: int| 0 <= k < diff.removed@.len() ==> (#[trigger] diff.removed@[k]).v().wf(),
            forall|k: int|
                0 <= k < i ==> (#[trigger] r@[k])@ == apartment_display(diff.removed@[k].v()),
        decreases diff.removed.len() - i,
    {
        let line = diff.removed[i].display_line();
        r.push(line);
        i = i + 1;
    }
    r
}

/// The display lines of the changed units' new payloads, for the tick
/// report.
pub fn changed_display_lines(diff: &ApartmentsDiff) -> (r: Vec<String>)
    requires
        forall|i: int| 0 <= i < diff.changed@.len() ==> (#[trigger] diff.changed@[i]).new.v().wf(),
    ensures
        r@.len() == diff.changed@.len(),
        forall|i: int|
            0 <= i < r@.len() ==> (#[trigger] r@[i])@ == api_apartment_display(
                diff.changed@[i].new.v(),
            ),
{
    let mut r: Vec<String> = Vec::new();
    let mut i: usize = 0;
    while i < diff.changed.len()
        invariant
            i <= diff.changed.len(),
            r@.len() == i,
            forall|k: int|
                0 <= k < diff.changed@.len() ==> (#[trigger] diff.changed@[k]).new.v().wf(),
            forall|k: int|
                0 <= k < i ==> (#[trigger] r@[k])@ == api_apartment_display(
                    diff.changed@[k].new.v(),
                ),
        decreases diff.changed.len() - i,
    {
        let line = diff.changed[i].new.display_line();
        r.push(line);
        i = i + 1;
    }
    r
}

} // verus!
