//! Contacts as read from the People API, and matching them by phone number.

use vstd::prelude::*;
use crate::phone::{normalize_phone, normalized_phone};

verus! {

/// A contact: resource name, display name and phone numbers.
#[derive(Debug)]
pub struct ContactInfo {
    pub resource_name: String,
    pub display_name: String,
    pub phones: Vec<String>,
}

/// A phone entry of a People API connection: its `canonicalForm` and
/// `value` strings, when present.
pub struct RawPhone {
    pub canonical_form: Option<String>,
    pub value: Option<String>,
}

/// The fields of a People API connection that are read: `resourceName`,
/// the `displayName` of its first name, and its phone entries.
pub struct RawContact {
    pub resource_name: Option<String>,
    pub first_display_name: Option<String>,
    pub phones: Vec<RawPhone>,
}

/// The number of a phone entry: its canonical form, else its value.
pub open spec fn raw_phone_text(p: RawPhone) -> Option<Seq<char>> {
    match p.canonical_form {
        Some(c) => Some(c@),
        None => match p.value {
            Some(v) => Some(v@),
            None => None,
        },
    }
}

/// The numbers of the phone entries that have one, in order.
pub open spec fn raw_phone_texts(ps: Seq<RawPhone>) -> Seq<Seq<char>>
    decreases ps.len(),
{
    if ps.len() == 0 {
        Seq::empty()
    } else {
        raw_phone_texts(ps.drop_last()) + match raw_phone_text(ps.last()) {
            Some(t) => seq![t],
            None => Seq::empty(),
        }
    }
}

/// The phone numbers of a contact as text.
pub open spec fn phone_texts(c: ContactInfo) -> Seq<Seq<char>> {
    c.phones@.map_values(|p: String| p@)
}

/// Reads a contact from a connection: none without a resource name; an
/// empty display name when there is none.
pub fn contact_from_raw(raw: RawContact) -> (r: Option<ContactInfo>)
    ensures
        raw.resource_name is None ==> r is None,
        raw.resource_name matches Some(n) ==> (r matches Some(c) && c.resource_name@ == n@
            && c.display_name@ == (match raw.first_display_name {
            Some(d) => d@,
            None => Seq::<char>::empty(),
        }) && phone_texts(c) == raw_phone_texts(raw.phones@)),
{
    let resource_name = match raw.resource_name {
        Some(n) => n,
        None => {
            return None;
        },
    };
    let display_name = match raw.first_display_name {
        Some(d) => d,
        None => String::new(),
    };
    let mut phones: Vec<String> = Vec::new();
    let mut i: usize = 0;
    while i < raw.phones.len()
        invariant
            i <= raw.phones@.len(),
            phones@.map_values(|p: String| p@) == raw_phone_texts(raw.phones@.subrange(0, i as int)),
        decreases raw.phones@.len() - i,
    {
        let p = &raw.phones[i];
        let ghost before = phones@;
        proof {
            let pre = raw.phones@.subrange(0, i + 1);
            assert(pre.drop_last() =~= raw.phones@.subrange(0, i as int));
            assert(pre.last() == *p);
        }
        match &p.canonical_form {
            Some(c) => {
                phones.push(c.clone());
                proof {
                    assert(phones@.map_values(|q: String| q@) =~= before.map_values(|q: String| q@)
                        + seq![c@]);
                }
            },
            None => match &p.value {
                Some(v) => {
                    phones.push(v.clone());
                    proof {
                        assert(phones@.map_values(|q: String| q@) =~= before.map_values(
                            |q: String| q@,
                        ) + seq![v@]);
                    }
                },
                None => {
                    proof {
                        assert(before.map_values(|q: String| q@) + Seq::<Seq<char>>::empty()
                            =~= before.map_values(|q: String| q@));
                    }
                },
            },
        }
        i = i + 1;
    }
    proof {
        assert(raw.phones@.subrange(0, raw.phones@.len() as int) =~= raw.phones@);
    }
    Some(ContactInfo { resource_name, display_name, phones })
}

/// `c` is the contact read from the connection `raw`.
pub open spec fn contact_of_raw(c: ContactInfo, raw: RawContact) -> bool {
    &&& raw.resource_name matches Some(n) && c.resource_name@ == n@
    &&& c.display_name@ == (match raw.first_display_name {
        Some(d) => d@,
        None => Seq::<char>::empty(),
    })
    &&& phone_texts(c) == raw_phone_texts(raw.phones@)
}

/// `out` are the contacts read from the connections `raws`, in order:
/// one for each connection with a resource name.
pub open spec fn contacts_of_page(out: Seq<ContactInfo>, raws: Seq<RawContact>) -> bool
    decreases raws.len(),
{
    if raws.len() == 0 {
        out.len() == 0
    } else if raws.last().resource_name is None {
        contacts_of_page(out, raws.drop_last())
    } else {
        out.len() > 0 && contact_of_raw(out.last(), raws.last()) && contacts_of_page(
            out.drop_last(),
            raws.drop_last(),
        )
    }
}

/// Takes in one page of connections: the contacts read from it are added
/// after those gathered so far, and the page token to ask for next comes
/// back (`None` when this was the last page).
pub fn absorb_page(contacts: &mut Vec<ContactInfo>, page: Vec<RawContact>, next_page_token: Option<String>) -> (next: Option<String>)
    ensures
        next == next_page_token,
        final(contacts)@.len() >= old(contacts)@.len(),
        final(contacts)@.subrange(0, old(contacts)@.len() as int) == old(contacts)@,
        contacts_of_page(final(contacts)@.subrange(old(contacts)@.len() as int, final(contacts)@.len() as int), page@),
{
    let ghost start = contacts@;
    let ghost orig = page@;
    let n = page.len();
    let mut rest = page;
    let mut k: usize = 0;
    assert(contacts@.subrange(start.len() as int, contacts@.len() as int) =~= Seq::<ContactInfo>::empty());
    assert(orig.subrange(0, 0) =~= Seq::<RawContact>::empty());
    while rest.len() > 0
        invariant
            k + rest@.len() == orig.len(),
            orig.len() == n,
            rest@ == orig.subrange(k as int, orig.len() as int),
            contacts@.len() >= start.len(),
            contacts@.subrange(0, start.len() as int) == start,
            contacts_of_page(contacts@.subrange(start.len() as int, contacts@.len() as int), orig.subrange(0, k as int)),
        decreases rest@.len(),
    {
        let raw = rest.remove(0);
        let ghost added = contacts@.subrange(start.len() as int, contacts@.len() as int);
        let ghost pre = orig.subrange(0, k + 1);
        proof {
            assert(raw == orig[k as int]);
            assert(pre.drop_last() =~= orig.subrange(0, k as int));
            assert(pre.last() == raw);
            assert(rest@ =~= orig.subrange(k + 1, orig.len() as int));
        }
        match contact_from_raw(raw) {
            Some(c) => {
                contacts.push(c);
                proof {
                    let now = contacts@.subrange(start.len() as int, contacts@.len() as int);
                    assert(now.drop_last() =~= added);
                    assert(now.last() == c);
                    assert(contacts@.subrange(0, start.len() as int) =~= start);
                }
            },
            None => {},
        }
        k = k + 1;
    }
    proof {
        assert(orig.subrange(0, k as int) =~= orig);
    }
    next_page_token
}

/// The E.164 forms of the numbers that normalise, in order.
pub open spec fn normalized_list(phones: Seq<Seq<char>>) -> Seq<Seq<char>>
    decreases phones.len(),
{
    if phones.len() == 0 {
        Seq::empty()
    } else {
        normalized_list(phones.drop_last()) + match normalized_phone(phones.last()) {
            Some(e) => seq![e],
            None => Seq::empty(),
        }
    }
}

/// The E.164 forms of all the contacts' numbers that normalise, contact by
/// contact.
pub open spec fn all_normalized(contacts: Seq<ContactInfo>) -> Seq<Seq<char>>
    decreases contacts.len(),
{
    if contacts.len() == 0 {
        Seq::empty()
    } else {
        all_normalized(contacts.drop_last()) + normalized_list(phone_texts(contacts.last()))
    }
}

fn push_normalized(out: &mut Vec<String>, phones: &Vec<String>)
    ensures
        final(out)@.map_values(|p: String| p@) == old(out)@.map_values(|p: String| p@) + normalized_list(
            phones@.map_values(|p: String| p@),
        ),
{
    let ghost start = out@.map_values(|p: String| p@);
    let ghost all = phones@.map_values(|p: String| p@);
    let mut i: usize = 0;
    assert(start + normalized_list(all.subrange(0, 0)) =~= start);
    while i < phones.len()
        invariant
            i <= phones@.len(),
            all == phones@.map_values(|p: String| p@),
            out@.map_values(|p: String| p@) == start + normalized_list(all.subrange(0, i as int)),
        decreases phones@.len() - i,
    {
        let ghost before = out@.map_values(|p: String| p@);
        proof {
            let pre = all.subrange(0, i + 1);
            assert(pre.drop_last() =~= all.subrange(0, i as int));
            assert(pre.last() == phones@[i as int]@);
        }
        match normalize_phone(phones[i].as_str()) {
            Some(e) => {
                out.push(e);
                proof {
                    assert(out@.map_values(|p: String| p@) =~= before + seq![e@]);
                }
            },
            None => {
                proof {
                    assert(before + Seq::<Seq<char>>::empty() =~= before);
                }
            },
        }
        proof {
            assert(out@.map_values(|p: String| p@) =~= start + normalized_list(all.subrange(0, i + 1)));
        }
        i = i + 1;
    }
    proof {
        assert(all.subrange(0, all.len() as int) =~= all);
    }
}

/// All E.164 numbers present in the contacts.
pub fn normalized_phones(contacts: &Vec<ContactInfo>) -> (r: Vec<String>)
    ensures
        r@.map_values(|p: String| p@) == all_normalized(contacts@),
{
    let mut out: Vec<String> = Vec::new();
    let mut i: usize = 0;
    assert(out@.map_values(|p: String| p@) =~= all_normalized(contacts@.subrange(0, 0)));
    while i < contacts.len()
        invariant
            i <= contacts@.len(),
            out@.map_values(|p: String| p@) == all_normalized(contacts@.subrange(0, i as int)),
        decreases contacts@.len() - i,
    {
        proof {
            let pre = contacts@.subrange(0, i + 1);
            assert(pre.drop_last() =~= contacts@.subrange(0, i as int));
            assert(pre.last() == contacts@[i as int]);
        }
        push_normalized(&mut out, &contacts[i].phones);
        i = i + 1;
    }
    proof {
        assert(contacts@.subrange(0, contacts@.len() as int) =~= contacts@);
    }
    out
}

/// One of the contact's numbers normalises to `e`.
pub open spec fn contact_has_phone(c: ContactInfo, e: Seq<char>) -> bool {
    exists|k: int| 0 <= k < c.phones@.len() && normalized_phone(#[trigger] c.phones@[k]@) == Some(e)
}

fn has_phone(c: &ContactInfo, e: &String) -> (b: bool)
    ensures
        b == contact_has_phone(*c, e@),
{
    let mut k: usize = 0;
    while k < c.phones.len()
        invariant
            k <= c.phones@.len(),
            forall|j: int| 0 <= j < k ==> normalized_phone(#[trigger] c.phones@[j]@) != Some(e@),
        decreases c.phones@.len() - k,
    {
        match normalize_phone(c.phones[k].as_str()) {
            Some(n) => {
                if n == *e {
                    return true;
                }
            },
            None => {},
        }
        k = k + 1;
    }
    false
}

/// Why a number given to search or upsert was refused.
#[derive(PartialEq, Eq, Debug, Clone, Copy)]
pub enum InvalidPhone {
    InvalidPhoneNumber,
}

/// Finds the first contact with a number equal to `phone` once both are
/// normalised; an error when `phone` does not normalise.
pub fn find_contact_by_phone(contacts: Vec<ContactInfo>, phone: &str) -> (r: Result<Option<ContactInfo>, InvalidPhone>)
    ensures
        normalized_phone(phone@) is None <==> r is Err,
        normalized_phone(phone@) matches Some(e) ==> match r {
            Ok(Some(c)) => exists|i: int| 0 <= i < contacts@.len() && contacts@[i] == c && contact_has_phone(c, e)
                && forall|j: int| 0 <= j < i ==> !contact_has_phone(#[trigger] contacts@[j], e),
            Ok(None) => forall|j: int| 0 <= j < contacts@.len() ==> !contact_has_phone(#[trigger] contacts@[j], e),
            Err(_) => false,
        },
{
    let e = match normalize_phone(phone) {
        Some(e) => e,
        None => {
            return Err(InvalidPhone::InvalidPhoneNumber);
        },
    };
    let mut list = contacts;
    let ghost given = list@;
    let mut i: usize = 0;
    while i < list.len()
        invariant
            list@ == given,
            given == contacts@,
            normalized_phone(phone@) == Some(e@),
            i <= list@.len(),
            forall|j: int| 0 <= j < i ==> !contact_has_phone(#[trigger] list@[j], e@),
        decreases list@.len() - i,
    {
        if has_phone(&list[i], &e) {
            let c = list.swap_remove(i);
            assert(contacts@[i as int] == c);
            assert(0 <= i < contacts@.len() && contacts@[i as int] == c && contact_has_phone(c, e@)
                && forall|j: int| 0 <= j < i ==> !contact_has_phone(#[trigger] contacts@[j], e@));
            return Ok(Some(c));
        }
        i = i + 1;
    }
    Ok(None)
}

/// Whether any contact has a number normalising to `e`.
pub open spec fn known_phone(contacts: Seq<ContactInfo>, e: Seq<char>) -> bool {
    exists|j: int| 0 <= j < contacts.len() && contact_has_phone(#[trigger] contacts[j], e)
}

/// The number to create a contact with, if one is needed: the E.164 form of
/// `phone` when no contact has it yet; an error when `phone` does not
/// normalise.
pub fn contact_to_create(contacts: &Vec<ContactInfo>, phone: &str) -> (r: Result<Option<String>, InvalidPhone>)
    ensures
        normalized_phone(phone@) is None <==> r is Err,
        normalized_phone(phone@) matches Some(e) ==> match r {
            Ok(Some(n)) => n@ == e && !known_phone(contacts@, e),
            Ok(None) => known_phone(contacts@, e),
            Err(_) => false,
        },
{
    let e = match normalize_phone(phone) {
        Some(e) => e,
        None => {
            return Err(InvalidPhone::InvalidPhoneNumber);
        },
    };
    let mut i: usize = 0;
    while i < contacts.len()
        invariant
            i <= contacts@.len(),
            normalized_phone(phone@) == Some(e@),
            forall|j: int| 0 <= j < i ==> !contact_has_phone(#[trigger] contacts@[j], e@),
        decreases contacts@.len() - i,
    {
        if has_phone(&contacts[i], &e) {
            assert(contact_has_phone(contacts@[i as int], e@));
            return Ok(None);
        }
        i = i + 1;
    }
    Ok(Some(e))
}

/// The body of a contact to create: the number, and the name unless empty.
pub struct ContactPayload {
    pub phone: String,
    pub display_name: Option<String>,
}

/// The contact to create for a name and number.
pub fn contact_payload(name: &str, phone: &str) -> (p: ContactPayload)
    ensures
        p.phone@ == phone@,
        name@.len() == 0 ==> p.display_name is None,
        name@.len() > 0 ==> (p.display_name matches Some(d) && d@ == name@),
{
    ContactPayload {
        phone: phone.to_owned(),
        display_name: if name.is_empty() {
            None
        } else {
            Some(name.to_owned())
        },
    }
}


proof fn lemma_normalized_list_complete(phones: Seq<Seq<char>>, k: int)
    requires
        0 <= k < phones.len(),
        normalized_phone(phones[k]) is Some,
    ensures
        normalized_list(phones).contains(normalized_phone(phones[k])->0),
    decreases phones.len(),
{
    let e = normalized_phone(phones[k])->0;
    let d = phones.drop_last();
    if k == phones.len() - 1 {
        let l = normalized_list(phones);
        assert(l == normalized_list(d) + seq![e]);
        assert(l[l.len() - 1] == e);
    } else {
        assert(d[k] == phones[k]);
        lemma_normalized_list_complete(d, k);
        let a = normalized_list(d);
        let j = choose|j: int| 0 <= j < a.len() && a[j] == e;
        assert(normalized_list(phones)[j] == e);
    }
}

proof fn lemma_normalized_list_sound(phones: Seq<Seq<char>>, e: Seq<char>)
    requires
        normalized_list(phones).contains(e),
    ensures
        exists|k: int| 0 <= k < phones.len() && normalized_phone(#[trigger] phones[k]) == Some(e),
    decreases phones.len(),
{
    let d = phones.drop_last();
    let a = normalized_list(d);
    let l = normalized_list(phones);
    let j = choose|j: int| 0 <= j < l.len() && l[j] == e;
    if j < a.len() {
        assert(a[j] == e);
        lemma_normalized_list_sound(d, e);
        let k = choose|k: int| 0 <= k < d.len() && normalized_phone(#[trigger] d[k]) == Some(e);
        assert(phones[k] == d[k]);
    } else {
        let k = phones.len() - 1;
        assert(normalized_phone(phones[k]) == Some(e));
    }
}

/// The numbers present in the contacts: every number of every contact that
/// normalises appears in the list as its E.164 form, and every entry of the
/// list is the E.164 form of some number of some contact.
pub proof fn lemma_normalized_phones_are_exactly_the_contacts_numbers(contacts: Seq<ContactInfo>)
    ensures
        forall|i: int, k: int|
            0 <= i < contacts.len() && 0 <= k < contacts[i].phones@.len() && #[trigger] normalized_phone(
                contacts[i].phones@[k]@,
            ) is Some ==> all_normalized(contacts).contains(normalized_phone(contacts[i].phones@[k]@)->0),
        forall|e: Seq<char>| #[trigger] all_normalized(contacts).contains(e) ==> exists|i: int, k: int|
            0 <= i < contacts.len() && 0 <= k < contacts[i].phones@.len() && normalized_phone(
                #[trigger] contacts[i].phones@[k]@,
            ) == Some(e),
    decreases contacts.len(),
{
    if contacts.len() > 0 {
        let d = contacts.drop_last();
        let c = contacts.last();
        lemma_normalized_phones_are_exactly_the_contacts_numbers(d);
        let a = all_normalized(d);
        let b = normalized_list(phone_texts(c));
        assert(all_normalized(contacts) == a + b);
        assert forall|i: int, k: int|
            0 <= i < contacts.len() && 0 <= k < contacts[i].phones@.len() && #[trigger] normalized_phone(
                contacts[i].phones@[k]@,
            ) is Some implies all_normalized(contacts).contains(normalized_phone(contacts[i].phones@[k]@)->0) by {
            let e = normalized_phone(contacts[i].phones@[k]@)->0;
            if i < d.len() {
                assert(d[i] == contacts[i]);
                assert(normalized_phone(d[i].phones@[k]@) is Some);
                assert(a.contains(e));
                let j = choose|j: int| 0 <= j < a.len() && a[j] == e;
                assert((a + b)[j] == e);
            } else {
                assert(contacts[i] == c);
                assert(phone_texts(c)[k] == c.phones@[k]@);
                lemma_normalized_list_complete(phone_texts(c), k);
                let j = choose|j: int| 0 <= j < b.len() && b[j] == e;
                assert((a + b)[a.len() + j] == e);
            }
        }
        assert forall|e: Seq<char>| #[trigger] all_normalized(contacts).contains(e) implies exists|i: int, k: int|
            0 <= i < contacts.len() && 0 <= k < contacts[i].phones@.len() && normalized_phone(
                #[trigger] contacts[i].phones@[k]@,
            ) == Some(e) by {
            let j = choose|j: int| 0 <= j < (a + b).len() && (a + b)[j] == e;
            if j < a.len() {
                assert(a[j] == e);
                assert(a.contains(e));
                let (i, k) = choose|i: int, k: int|
                    0 <= i < d.len() && 0 <= k < d[i].phones@.len() && normalized_phone(
                        #[trigger] d[i].phones@[k]@,
                    ) == Some(e);
                assert(d[i] == contacts[i]);
                assert(normalized_phone(contacts[i].phones@[k]@) == Some(e));
            } else {
                assert(b[j - a.len()] == e);
                assert(b.contains(e));
                lemma_normalized_list_sound(phone_texts(c), e);
                let k = choose|k: int| 0 <= k < phone_texts(c).len() && normalized_phone(
                    #[trigger] phone_texts(c)[k],
                ) == Some(e);
                let i = contacts.len() - 1;
                assert(contacts[i] == c);
                assert(phone_texts(c)[k] == c.phones@[k]@);
                assert(normalized_phone(contacts[i].phones@[k]@) == Some(e));
            }
        }
    }
}

} // verus!
