use vstd::prelude::*;
use vstd::string::*;

verus! {

/// What can go wrong in a synchronisation run or at start-up.
pub enum Error {
    /// A required setting is absent; it holds the setting's name.
    ConfigMissingEnv(String),
    /// A setting does not have the expected form; it holds the setting's name.
    ConfigWrongFormat(String),
    /// The schedule expression is not a valid cron expression.
    ConfigSchedule,
    /// The record store failed to read or write.
    Persistence(String),
    /// The lead listing could not be fetched or read, or its cursor is broken.
    ExternalService(String),
    /// The enrichment backend refused the credentials.
    ProfitAuthFailed,
    /// The enrichment backend gave no usable data for one deal.
    ProfitGetDataFailed,
    /// The object number of one deal is not an integer.
    Parse,
}

impl Error {
    /// The text of the error, as sent to the operator.
    pub open spec fn spec_message(&self) -> Seq<char> {
        match self {
            Error::ConfigMissingEnv(n) => "ConfigMissingEnv("@ + n@ + ")"@,
            Error::ConfigWrongFormat(n) => "ConfigWrongFormat("@ + n@ + ")"@,
            Error::ConfigSchedule => "ConfigSchedule"@,
            Error::Persistence(m) => "Persistence("@ + m@ + ")"@,
            Error::ExternalService(m) => "ExternalService("@ + m@ + ")"@,
            Error::ProfitAuthFailed => "ProfitAuthFailed"@,
            Error::ProfitGetDataFailed => "ProfitGetDataFailed"@,
            Error::Parse => "Parse"@,
        }
    }

    /// The text of the error, as sent to the operator.
    pub fn message(&self) -> (r: String)
        ensures
            r@ == self.spec_message(),
    {
        let (head, detail) = match self {
            Error::ConfigMissingEnv(n) => ("ConfigMissingEnv(", Some(n)),
            Error::ConfigWrongFormat(n) => ("ConfigWrongFormat(", Some(n)),
            Error::ConfigSchedule => ("ConfigSchedule", None),
            Error::Persistence(m) => ("Persistence(", Some(m)),
            Error::ExternalService(m) => ("ExternalService(", Some(m)),
            Error::ProfitAuthFailed => ("ProfitAuthFailed", None),
            Error::ProfitGetDataFailed => ("ProfitGetDataFailed", None),
            Error::Parse => ("Parse", None),
        };
        let mut text = String::from_str(head);
        match detail {
            Some(d) => {
                text.append(d.as_str());
                text.append(")");
            },
            None => {},
        }
        text
    }

    /// Whether the error concerns one deal only, so that the run goes on.
    pub open spec fn spec_is_per_deal(&self) -> bool {
        self is ProfitGetDataFailed || self is Parse
    }

    /// Whether the error concerns one deal only, so that the run goes on.
    pub fn is_per_deal(&self) -> (r: bool)
        ensures
            r == self.spec_is_per_deal(),
    {
        match self {
            Error::ProfitGetDataFailed => true,
            Error::Parse => true,
            _ => false,
        }
    }
}

} // verus!
