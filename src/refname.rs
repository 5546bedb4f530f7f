//! Partial reference names, such as `main` or `heads/main`.
use vstd::prelude::*;
use vstd::string::StringSliceAdditionalSpecFns;
use git_validate::reference::name::Error as RefError;
use git_validate::tag::name::Error as TagError;

verus! {

/// Why git's rules for tag names, which every reference name must follow,
/// refuse a name.
#[derive(PartialEq, Eq, Clone, Debug)]
pub enum TagNameError {
    InvalidByte { byte: Vec<u8> },
    DoubleDot,
    LockFileSuffix,
    ReflogPortion,
    Asterisk,
    StartsWithDot,
    EndsWithSlash,
    Empty,
}

/// Which of git's rules for reference names refuses a name.
#[derive(PartialEq, Eq, Structural, Clone, Copy, Debug)]
pub enum RefnameRule {
    /// The rules for tag names refuse it.
    TagRules,
    SomeLowercase,
    StartsWithSlash,
    RepeatedSlash,
    SingleDot,
}

/// Why a reference name is refused.
#[derive(PartialEq, Eq, Clone, Debug)]
pub enum NameError {
    Tag(TagNameError),
    SomeLowercase,
    StartsWithSlash,
    RepeatedSlash,
    SingleDot,
}

/// The tag-name rule that refuses the bytes, if any.
pub uninterp spec fn tag_name_error(b: Seq<u8>) -> Option<TagNameError>;

/// The reference-name rule that refuses the bytes as a partial name, if any.
pub uninterp spec fn partial_name_error(b: Seq<u8>) -> Option<RefnameRule>;

/// Relies on git_validate's `tag::name`: it accepts the bytes or names the
/// rule that refuses them, by the bytes alone; nothing is refused as empty
/// first.
#[verifier::external_body]
fn check_tag_name(b: &[u8]) -> (r: Option<TagNameError>)
    ensures
        r == tag_name_error(b@),
        b@.len() == 0 ==> r == Some(TagNameError::Empty),
{
    match git_validate::tag::name(bstr::BStr::new(b)) {
        Ok(_) => None,
        Err(TagError::InvalidByte { byte }) => Some(TagNameError::InvalidByte { byte: byte.into() }),
        Err(TagError::DoubleDot) => Some(TagNameError::DoubleDot),
        Err(TagError::LockFileSuffix) => Some(TagNameError::LockFileSuffix),
        Err(TagError::ReflogPortion) => Some(TagNameError::ReflogPortion),
        Err(TagError::Asterisk) => Some(TagNameError::Asterisk),
        Err(TagError::StartsWithDot) => Some(TagNameError::StartsWithDot),
        Err(TagError::EndsWithSlash) => Some(TagNameError::EndsWithSlash),
        Err(TagError::Empty) => Some(TagNameError::Empty),
    }
}

/// Relies on git_validate's `reference::name_partial`: it accepts the bytes or
/// names the rule that refuses them, by the bytes alone. It applies the tag
/// rules first, so it refuses by them exactly when they refuse the bytes.
#[verifier::external_body]
pub(crate) fn check_partial_name(b: &[u8]) -> (r: Option<RefnameRule>)
    ensures
        r == partial_name_error(b@),
        (r == Some(RefnameRule::TagRules)) == (tag_name_error(b@) is Some),
{
    match git_validate::reference::name_partial(bstr::BStr::new(b)) {
        Ok(_) => None,
        Err(RefError::Tag(_)) => Some(RefnameRule::TagRules),
        Err(RefError::SomeLowercase) => Some(RefnameRule::SomeLowercase),
        Err(RefError::StartsWithSlash) => Some(RefnameRule::StartsWithSlash),
        Err(RefError::RepeatedSlash) => Some(RefnameRule::RepeatedSlash),
        Err(RefError::SingleDot) => Some(RefnameRule::SingleDot),
    }
}

/// Why git refuses `b` as a partial reference name, or nothing if it accepts it.
pub open spec fn name_error_of(b: Seq<u8>) -> Option<NameError> {
    match partial_name_error(b) {
        None => None,
        Some(RefnameRule::TagRules) => Some(NameError::Tag(tag_name_error(b).unwrap())),
        Some(RefnameRule::SomeLowercase) => Some(NameError::SomeLowercase),
        Some(RefnameRule::StartsWithSlash) => Some(NameError::StartsWithSlash),
        Some(RefnameRule::RepeatedSlash) => Some(NameError::RepeatedSlash),
        Some(RefnameRule::SingleDot) => Some(NameError::SingleDot),
    }
}

/// A reference name that passed validation.
#[derive(Debug)]
pub struct ValidPartialName(Vec<u8>);

impl View for ValidPartialName {
    type V = Seq<u8>;

    closed spec fn view(&self) -> Seq<u8> {
        self.0@
    }
}

/// A name that failed validation: the reason and the name.
#[derive(Debug)]
pub enum Error {
    RefnameValidation { err: NameError, path: Vec<u8> },
}

impl ValidPartialName {
    /// Validates the bytes `v` as a partial reference name.
    pub fn try_from_bytes(v: &[u8]) -> (r: Result<ValidPartialName, Error>)
        ensures
            match r {
                Ok(n) => name_error_of(v@) is None && n@ == v@,
                Err(Error::RefnameValidation { err, path }) => name_error_of(v@) == Some(err) && path@ == v@,
            },
    {
        match check_partial_name(v) {
            None => Ok(ValidPartialName(crate::bytes::copy_bytes(v))),
            Some(rule) => {
                let err = match rule {
                    RefnameRule::TagRules => match check_tag_name(v) {
                        Some(t) => NameError::Tag(t),
                        None => NameError::Tag(TagNameError::Empty),
                    },
                    RefnameRule::SomeLowercase => NameError::SomeLowercase,
                    RefnameRule::StartsWithSlash => NameError::StartsWithSlash,
                    RefnameRule::RepeatedSlash => NameError::RepeatedSlash,
                    RefnameRule::SingleDot => NameError::SingleDot,
                };
                Err(Error::RefnameValidation { err, path: crate::bytes::copy_bytes(v) })
            },
        }
    }

    /// Validates `v` as a partial reference name.
    pub fn try_from(v: &str) -> (r: Result<ValidPartialName, Error>)
        ensures
            match r {
                Ok(n) => name_error_of(v.spec_bytes()) is None && n@ == v.spec_bytes(),
                Err(Error::RefnameValidation { err, path }) => name_error_of(v.spec_bytes()) == Some(err)
                    && path@ == v.spec_bytes(),
            },
    {
        ValidPartialName::try_from_bytes(v.as_bytes())
    }

    /// The relative path, as bytes, under which the reference is stored.
    pub fn to_path(&self) -> (r: Vec<u8>)
        ensures
            r@ == self@,
    {
        crate::bytes::copy_bytes(self.0.as_slice())
    }
}

} // verus!
