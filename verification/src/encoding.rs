//! The position encoding negotiated once per connection: it fixes how
//! the `character` field of every later position is interpreted.
use crate::error::ServiceError;
use vstd::prelude::*;

verus! {

#[derive(Copy, Clone, Debug, PartialEq, Eq, Structural)]
pub enum Encoding {
    Utf8,
    Utf16,
    Utf32,
}

impl Encoding {
    /// Parses a protocol encoding name. Exactly the three names below
    /// are honored; anything else is refused rather than guessed at.
    pub fn from_name(name: &String) -> (r: Result<Encoding, ServiceError>)
        ensures
            name@ == "utf-8"@ ==> r == Ok::<Encoding, ServiceError>(Encoding::Utf8),
            name@ == "utf-16"@ ==> r == Ok::<Encoding, ServiceError>(Encoding::Utf16),
            name@ == "utf-32"@ ==> r == Ok::<Encoding, ServiceError>(Encoding::Utf32),
            name@ != "utf-8"@ && name@ != "utf-16"@ && name@ != "utf-32"@ ==> r == Err::<
                Encoding,
                ServiceError,
            >(ServiceError::UnsupportedEncoding),
    {
        proof {
            reveal_strlit("utf-8");
            reveal_strlit("utf-16");
            reveal_strlit("utf-32");
            assert("utf-8"@.len() == 5);
            assert("utf-16"@.len() == 6);
            assert("utf-32"@.len() == 6);
            assert("utf-16"@[4] == '1');
            assert("utf-32"@[4] == '3');
        }
        if *name == "utf-8".to_owned() {
            Ok(Encoding::Utf8)
        } else if *name == "utf-16".to_owned() {
            Ok(Encoding::Utf16)
        } else if *name == "utf-32".to_owned() {
            Ok(Encoding::Utf32)
        } else {
            Err(ServiceError::UnsupportedEncoding)
        }
    }

    /// Selects the connection's encoding from the client's preference
    /// list: the first entry wins; a missing or empty list falls back to
    /// UTF-16, the protocol's default.
    pub fn negotiate(prefs: &Option<Vec<String>>) -> (r: Result<Encoding, ServiceError>)
        ensures
            (prefs is None || prefs->0@.len() == 0) ==> r == Ok::<Encoding, ServiceError>(
                Encoding::Utf16,
            ),
            prefs is Some && prefs->0@.len() > 0 ==> {
                let first = prefs->0@[0]@;
                &&& (first == "utf-8"@ ==> r == Ok::<Encoding, ServiceError>(Encoding::Utf8))
                &&& (first == "utf-16"@ ==> r == Ok::<Encoding, ServiceError>(Encoding::Utf16))
                &&& (first == "utf-32"@ ==> r == Ok::<Encoding, ServiceError>(Encoding::Utf32))
                &&& (first != "utf-8"@ && first != "utf-16"@ && first != "utf-32"@ ==> r == Err::<
                    Encoding,
                    ServiceError,
                >(ServiceError::UnsupportedEncoding))
            },
    {
        match prefs {
            None => Ok(Encoding::Utf16),
            Some(list) => {
                if list.len() == 0 {
                    Ok(Encoding::Utf16)
                } else {
                    Encoding::from_name(&list[0])
                }
            },
        }
    }
}

} // verus!
