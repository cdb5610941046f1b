//! From a raw request body to a record fit to persist.
//!
//! A submission must carry a `name` and an `email` field, both present and
//! non-empty once decoded. Field values must be valid UTF-8; any other
//! defect of the body itself (a bad percent escape) makes it malformed.

use vstd::prelude::*;
use vstd::utf8::decode_utf8;
use vstd::utf8::valid_utf8;
use crate::correlation::copy_string;
use crate::form::form_pairs;
use crate::form::last_value;
use crate::form::lookup_last;
use crate::form::parse_pairs;
use crate::outside::current_timestamp;
use crate::outside::fresh_id;
use crate::outside::utf8_string;

verus! {

/// The byte sequence of the key `name`.
pub open spec fn name_key() -> Seq<u8> {
    seq![110u8, 97u8, 109u8, 101u8]
}

/// The byte sequence of the key `email`.
pub open spec fn email_key() -> Seq<u8> {
    seq![101u8, 109u8, 97u8, 105u8, 108u8]
}

/// The key `name` as bytes.
pub fn name_key_bytes() -> (r: Vec<u8>)
    ensures
        r@ == name_key(),
{
    let mut v: Vec<u8> = Vec::new();
    v.push(110);
    v.push(97);
    v.push(109);
    v.push(101);
    proof {
        assert(v@ =~= name_key());
    }
    v
}

/// The key `email` as bytes.
pub fn email_key_bytes() -> (r: Vec<u8>)
    ensures
        r@ == email_key(),
{
    let mut v: Vec<u8> = Vec::new();
    v.push(101);
    v.push(109);
    v.push(97);
    v.push(105);
    v.push(108);
    proof {
        assert(v@ =~= email_key());
    }
    v
}

/// The decoded value of `key` in a well-formed body; when the key repeats,
/// the last occurrence wins.
pub open spec fn field_of(body: Seq<u8>, key: Seq<u8>) -> Option<Seq<u8>>
    recommends
        form_pairs(body) is Some,
{
    last_value(form_pairs(body)->0, key)
}

/// Why a submission was turned away.
#[derive(Clone, Copy, Debug, PartialEq, Eq, Structural)]
pub enum SubscribeRejection {
    /// The body is not well-formed form data.
    MalformedBody,
    /// Neither `name` nor `email` was submitted.
    MissingBoth,
    /// `name` was not submitted.
    MissingName,
    /// `email` was not submitted.
    MissingEmail,
    /// The submitted `name` is not valid UTF-8.
    MalformedName,
    /// The submitted `email` is not valid UTF-8.
    MalformedEmail,
    /// The submitted `name` is empty.
    EmptyName,
    /// The submitted `email` is empty.
    EmptyEmail,
}

/// The raw submitted fields, percent-decoded, before any judgement on them.
pub struct Submission {
    pub name: Option<Vec<u8>>,
    pub email: Option<Vec<u8>>,
}

/// The deserialized form: both fields present, readable and non-empty.
pub struct FormData {
    pub email: String,
    pub name: String,
}

/// A submission that passed validation: both fields present and non-empty,
/// with the identifier and timestamp it will be persisted under.
pub struct ValidatedSubscriber {
    pub id: String,
    pub email: String,
    pub name: String,
    pub subscribed_at: String,
}

impl ValidatedSubscriber {
    /// Fixes the identity and time of a validated form: both are assigned
    /// here, at validation time, not when the row is written.
    pub fn new(form: FormData, id: String, subscribed_at: String) -> (v: ValidatedSubscriber)
        ensures
            v.id@ == id@,
            v.email@ == form.email@,
            v.name@ == form.name@,
            v.subscribed_at@ == subscribed_at@,
    {
        ValidatedSubscriber { id, email: form.email, name: form.name, subscribed_at }
    }

    /// A field-for-field copy.
    pub fn duplicate(&self) -> (c: ValidatedSubscriber)
        ensures
            c.id@ == self.id@,
            c.email@ == self.email@,
            c.name@ == self.name@,
            c.subscribed_at@ == self.subscribed_at@,
    {
        ValidatedSubscriber {
            id: copy_string(&self.id),
            email: copy_string(&self.email),
            name: copy_string(&self.name),
            subscribed_at: copy_string(&self.subscribed_at),
        }
    }
}

/// The verdict of the validator on a pair of raw fields.
pub open spec fn spec_validate(name: Option<Seq<u8>>, email: Option<Seq<u8>>) -> Option<
    SubscribeRejection,
> {
    if name is None && email is None {
        Some(SubscribeRejection::MissingBoth)
    } else if name is None {
        Some(SubscribeRejection::MissingName)
    } else if email is None {
        Some(SubscribeRejection::MissingEmail)
    } else if !valid_utf8(name->0) {
        Some(SubscribeRejection::MalformedName)
    } else if !valid_utf8(email->0) {
        Some(SubscribeRejection::MalformedEmail)
    } else if name->0.len() == 0 {
        Some(SubscribeRejection::EmptyName)
    } else if email->0.len() == 0 {
        Some(SubscribeRejection::EmptyEmail)
    } else {
        None
    }
}

/// The verdict on a whole body: `None` means it is fit to persist.
pub open spec fn spec_rejection(body: Seq<u8>) -> Option<SubscribeRejection> {
    if form_pairs(body) is None {
        Some(SubscribeRejection::MalformedBody)
    } else {
        spec_validate(field_of(body, name_key()), field_of(body, email_key()))
    }
}

pub open spec fn accepted(body: Seq<u8>) -> bool {
    spec_rejection(body) is None
}

/// The subscriber name an accepted body carries.
pub open spec fn spec_name_chars(body: Seq<u8>) -> Seq<char>
    recommends
        accepted(body),
{
    decode_utf8(field_of(body, name_key())->0)
}

/// The subscriber email an accepted body carries.
pub open spec fn spec_email_chars(body: Seq<u8>) -> Seq<char>
    recommends
        accepted(body),
{
    decode_utf8(field_of(body, email_key())->0)
}

/// Splits a body into its submitted `name` and `email` fields. Unknown keys
/// are ignored; a repeated key keeps its last value; `Err` exactly when the
/// body itself cannot be decoded.
pub fn extract_submission(body: &Vec<u8>) -> (r: Result<Submission, SubscribeRejection>)
    ensures
        r is Err <==> form_pairs(body@) is None,
        r matches Err(rej) ==> rej == SubscribeRejection::MalformedBody,
        r matches Ok(sub) ==> sub.name.deep_view() == field_of(body@, name_key())
            && sub.email.deep_view() == field_of(body@, email_key()),
{
    match parse_pairs(body) {
        None => Err(SubscribeRejection::MalformedBody),
        Some(pairs) => {
            let nk = name_key_bytes();
            let ek = email_key_bytes();
            let name = lookup_last(&pairs, &nk);
            let email = lookup_last(&pairs, &ek);
            Ok(Submission { name, email })
        },
    }
}

/// The validator: either both fields are present, valid UTF-8 and
/// non-empty, and the deserialized form comes back, or the exact reason for
/// rejection does.
pub fn validate_submission(sub: Submission) -> (r: Result<FormData, SubscribeRejection>)
    ensures
        r is Err <==> spec_validate(sub.name.deep_view(), sub.email.deep_view()) is Some,
        r matches Err(rej) ==> spec_validate(sub.name.deep_view(), sub.email.deep_view()) == Some(
            rej,
        ),
        r matches Ok(form) ==> {
            &&& form.name@ == decode_utf8(sub.name.deep_view()->0)
            &&& form.email@ == decode_utf8(sub.email.deep_view()->0)
            &&& sub.name.deep_view()->0.len() > 0
            &&& sub.email.deep_view()->0.len() > 0
        },
{
    match (sub.name, sub.email) {
        (None, None) => Err(SubscribeRejection::MissingBoth),
        (None, Some(_)) => Err(SubscribeRejection::MissingName),
        (Some(_), None) => Err(SubscribeRejection::MissingEmail),
        (Some(nb), Some(eb)) => {
            let ghost nbv = nb@;
            let ghost ebv = eb@;
            proof {
                assert(sub.name.deep_view()->0 =~= nbv);
                assert(sub.email.deep_view()->0 =~= ebv);
            }
            let name_empty = nb.len() == 0;
            let email_empty = eb.len() == 0;
            match utf8_string(nb) {
                None => Err(SubscribeRejection::MalformedName),
                Some(name) => match utf8_string(eb) {
                    None => Err(SubscribeRejection::MalformedEmail),
                    Some(email) => {
                        if name_empty {
                            Err(SubscribeRejection::EmptyName)
                        } else if email_empty {
                            Err(SubscribeRejection::EmptyEmail)
                        } else {
                            Ok(FormData { email, name })
                        }
                    },
                },
            }
        },
    }
}

/// Validates a whole body against a supplied identifier and clock reading,
/// so that the outcome is a function of its arguments alone.
pub fn decide_submission(body: &Vec<u8>, id: String, subscribed_at: String) -> (r: Result<
    ValidatedSubscriber,
    SubscribeRejection,
>)
    ensures
        r is Err <==> spec_rejection(body@) is Some,
        r matches Err(rej) ==> spec_rejection(body@) == Some(rej),
        r matches Ok(v) ==> {
            &&& accepted(body@)
            &&& v.id@ == id@
            &&& v.subscribed_at@ == subscribed_at@
            &&& v.name@ == spec_name_chars(body@)
            &&& v.email@ == spec_email_chars(body@)
        },
{
    match extract_submission(body) {
        Err(rej) => Err(rej),
        Ok(sub) => match validate_submission(sub) {
            Err(rej) => Err(rej),
            Ok(form) => Ok(ValidatedSubscriber::new(form, id, subscribed_at)),
        },
    }
}

/// Validates a body the way a live request is served: under a freshly
/// generated identifier and the clock's current reading.
pub fn decide_submission_now(body: &Vec<u8>) -> (r: Result<ValidatedSubscriber, SubscribeRejection>)
    ensures
        r is Err <==> spec_rejection(body@) is Some,
        r matches Err(rej) ==> spec_rejection(body@) == Some(rej),
        r matches Ok(v) ==> {
            &&& accepted(body@)
            &&& v.id@.len() == 36
            &&& v.name@ == spec_name_chars(body@)
            &&& v.email@ == spec_email_chars(body@)
        },
{
    let id = fresh_id();
    let subscribed_at = current_timestamp();
    decide_submission(body, id, subscribed_at)
}

} // verus!
