//! The environments that the settings are written for.

use vstd::prelude::*;
use vstd::string::StringExecFns;

verus! {

/// An environment.
#[derive(Copy, Clone, Debug, PartialEq, Eq, Structural)]
pub enum Enviroment {
    Local,
    Production,
}

/// `s` in lower case, as `str::to_lowercase` of the standard library gives
/// it.
pub uninterp spec fn lowercased(s: Seq<char>) -> Seq<char>;

/// `str::to_lowercase`: a new string, each character mapped to lower case
/// by the rules of Unicode. The mapping is named, not spelled out.
#[verifier::external_body]
fn to_lowercase(value: &str) -> (lowered: String)
    ensures
        lowered@ == lowercased(value@),
{
    value.to_lowercase()
}

impl Enviroment {
    /// The name of the environment, as the settings files carry it.
    pub fn as_str(&self) -> (name: &'static str)
        ensures
            name@ == (match *self {
                Enviroment::Local => "local"@,
                Enviroment::Production => "production"@,
            }),
    {
        match self {
            Enviroment::Local => "local",
            Enviroment::Production => "production",
        }
    }

    /// The environment that `value` names, whatever the case of its
    /// letters. For a value that names none, the error says so, with the
    /// value in lower case.
    pub fn try_from(value: String) -> (res: Result<Enviroment, String>)
        ensures
            match res {
                Ok(Enviroment::Local) => lowercased(value@) == "local"@,
                Ok(Enviroment::Production) => lowercased(value@) == "production"@,
                Err(msg) => msg@ == unsupported(lowercased(value@)) && lowercased(value@)
                    != "local"@ && lowercased(value@) != "production"@,
            },
    {
        Self::from_lowered(to_lowercase(value.as_str()))
    }

    /// The environment that `lowered` names, letter for letter; the error
    /// message where it names none.
    pub fn from_lowered(lowered: String) -> (res: Result<Enviroment, String>)
        ensures
            match res {
                Ok(Enviroment::Local) => lowered@ == "local"@,
                Ok(Enviroment::Production) => lowered@ == "production"@,
                Err(msg) => msg@ == unsupported(lowered@) && lowered@ != "local"@ && lowered@
                    != "production"@,
            },
    {
        proof {
            reveal_strlit("local");
            reveal_strlit("production");
        }
        if lowered == "local".to_owned() {
            Ok(Enviroment::Local)
        } else if lowered == "production".to_owned() {
            Ok(Enviroment::Production)
        } else {
            Err(lowered.concat(" is not a supported environment. Use either `local` or `production`."))
        }
    }
}

/// What is said of a name that is no environment.
pub open spec fn unsupported(name: Seq<char>) -> Seq<char> {
    name + " is not a supported environment. Use either `local` or `production`."@
}

} // verus!
