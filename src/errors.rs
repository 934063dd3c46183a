use vstd::prelude::*;

verus! {

/// Every failure the library reports, from the authentication boundary, the
/// request bundle and the schedule normalisation.
#[derive(Debug, Clone, PartialEq, Eq)]
pub enum SmError {
    UnknownAuth,
    Unauthenticated,
    /// One bundled call answered with a status outside `200..300`.
    NonvalidStatusCode { statuscode: u16 },
    NoJwt,
    NoData,
    UnknownMS,
    InvalidMSCredentials,
    NonvalidAppId,
    /// A module result was read before it was settled, or read twice.
    UninitializedData,
    /// The bundle answered with fewer results than requests were sent.
    MissingResult,
    /// The data of one result does not have the shape its module expects.
    ResultParseError { endpoint: String },
    /// A schedule record lacks the field its classification rule needs.
    MalformedRecord,
    /// A schedule record's date is not an ISO `YYYY-MM-DD` date.
    DateParseError,
    /// A schedule record's period number is not a non-negative integer.
    PeriodParseError,
    /// A week number has no Monday or Sunday in the requested ISO year.
    InvalidWeek,
    /// A class hour's start or end is not an `HH:MM:SS` time.
    TimeParseError,
}

impl SmError {
    /// A human readable description of the error.
    pub fn message(&self) -> (r: String) {
        match self {
            SmError::UnknownAuth => "Unknown authentication issue".to_owned(),
            SmError::Unauthenticated => "Unauthenticated".to_owned(),
            SmError::NonvalidStatusCode { .. } => "the server returned a non-2xx status code".to_owned(),
            SmError::NoJwt => "the server did not return a json webtoken".to_owned(),
            SmError::NoData => "the server did not return any data".to_owned(),
            SmError::UnknownMS => "Unknown Office SSO Error".to_owned(),
            SmError::InvalidMSCredentials => "Incorrect Microsoft username or password".to_owned(),
            SmError::NonvalidAppId => "non-valid client Id".to_owned(),
            SmError::UninitializedData => "the result is not available".to_owned(),
            SmError::MissingResult => "the response holds fewer results than requests".to_owned(),
            SmError::ResultParseError { .. } => "a result could not be parsed".to_owned(),
            SmError::MalformedRecord => "a schedule record lacks a required field".to_owned(),
            SmError::DateParseError => "a schedule record has an unparsable date".to_owned(),
            SmError::PeriodParseError => "a schedule record has an unparsable period".to_owned(),
            SmError::InvalidWeek => "the week does not exist in that year".to_owned(),
            SmError::TimeParseError => "a class hour has an unparsable time".to_owned(),
        }
    }
}

} // verus!
